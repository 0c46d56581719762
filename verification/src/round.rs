//! One round of the game: the world, the handles of its four fixed
//! entities, and the simulation that advances it frame by frame.

use vstd::prelude::*;
use hecs::World;
use crate::components::{
    Attributes, Colour, enemy_entity, factory_entity, frame_counter_entity, score_counter_entity,
    ship_entity,
};
use crate::text::{score_label, score_text};
use crate::store::{
    Model, despawn, enemy_motion_of, enemy_motions, enemy_position_of, enemy_positions,
    entities, frame_count_of, frame_counters, get_counter, get_position, lemma_listed_next, listed,
    lists, new_world, no_entities, set_counter, set_position, set_text, spawn_enemy,
    spawn_factory, spawn_frame_counter, spawn_score_counter, spawn_ship,
};

verus! {

/// Frames between two waves of enemies.
pub const RESPAWN_INTERVAL: u64 = 120;

/// Frames that an enemy takes to fall one cell.
pub const FALL_SPEED: u16 = 10;

/// The handles of the four entities that live as long as the round.
#[derive(Clone, Copy, Debug, PartialEq, Eq, Structural)]
pub struct Handles {
    pub ship: u64,
    pub factory: u64,
    pub frame_counter: u64,
    pub score_counter: u64,
}

/// A round: its world, its fixed entities, and the grid's width and height.
pub struct Round {
    pub world: World,
    pub handles: Handles,
    pub grid: (u16, u16),
}

/// Whether a round goes on after a frame.
#[derive(Clone, Copy, Debug, PartialEq, Eq, Structural)]
pub enum RoundState {
    Running,
    Ended,
}

/// The number of role tags on an entity.
pub open spec fn roles(a: Attributes) -> int {
    (if a.frame_counter { 1int } else { 0 }) + (if a.score_counter { 1int } else { 0 })
        + (if a.ship { 1int } else { 0 }) + (if a.enemy { 1int } else { 0 })
        + (if a.factory { 1int } else { 0 })
}

/// An entity carries at most one role tag; a singleton's tag only on the
/// round's handle for it; and a falling enemy has a position above the
/// grid's lower edge, a size, a fill and a speed other than 0.
pub open spec fn entity_fits(a: Attributes, h: u64, handles: Handles, grid: (u16, u16)) -> bool {
    &&& roles(a) <= 1
    &&& a.frame_counter ==> h == handles.frame_counter
    &&& a.score_counter ==> h == handles.score_counter
    &&& a.ship ==> h == handles.ship
    &&& a.factory ==> h == handles.factory
    &&& a.enemy ==> a.position.is_some() && a.position.unwrap().1 < grid.1 && a.size.is_some()
        && a.fill.is_some() && a.speed.is_some() && a.speed.unwrap() != 0
}

/// The invariant of a round between two frames.
pub open spec fn well_formed(m: Model, handles: Handles, grid: (u16, u16)) -> bool {
    &&& grid.0 >= 1
    &&& grid.1 >= 2
    &&& m.dom().contains(handles.frame_counter)
    &&& m[handles.frame_counter].frame_counter
    &&& m[handles.frame_counter].counter.is_some()
    &&& m.dom().contains(handles.score_counter)
    &&& m[handles.score_counter].score_counter
    &&& m[handles.score_counter].counter.is_some()
    &&& m[handles.score_counter].text.is_some()
    &&& m.dom().contains(handles.ship)
    &&& m[handles.ship].ship
    &&& m[handles.ship].position.is_some()
    &&& m[handles.ship].position.unwrap().0 < grid.0
    &&& m.dom().contains(handles.factory)
    &&& m[handles.factory].factory
    &&& m[handles.factory].counter.is_some()
    &&& forall|h: u64| #[trigger] m.dom().contains(h) ==> entity_fits(m[h], h, handles, grid)
}

/// A counter's next value: one more, and 0 after the largest.
pub open spec fn wrap_inc(c: u64) -> u64 {
    if c == u64::MAX {
        0
    } else {
        (c + 1) as u64
    }
}

/// An entity after the frame counters have advanced.
pub open spec fn ticked_entity(a: Attributes) -> Attributes {
    if a.frame_counter && a.counter.is_some() {
        Attributes { counter: Some(wrap_inc(a.counter.unwrap())), ..a }
    } else {
        a
    }
}

/// The world after the frame counters have advanced.
pub open spec fn ticked(m: Model) -> Model {
    Map::new(|h: u64| m.dom().contains(h), |h: u64| ticked_entity(m[h]))
}

/// The world in which the first `n` of `items` have gone through `change`.
pub open spec fn partly<T>(
    m: Model,
    items: Seq<(u64, T)>,
    n: int,
    change: spec_fn(Attributes) -> Attributes,
) -> Model {
    Map::new(
        |h: u64| m.dom().contains(h),
        |h: u64|
            if listed(items, n, h) {
                change(m[h])
            } else {
                m[h]
            },
    )
}

/// The world of a round that has just begun: frame counter, score counter,
/// ship and factory, and nothing else.
pub open spec fn initial_model(handles: Handles, grid: (u16, u16)) -> Model {
    no_entities().insert(handles.frame_counter, frame_counter_entity(0)).insert(
        handles.score_counter,
        score_counter_entity(0, score_label(0), (10, 30), (30, Colour::White)),
    ).insert(
        handles.ship,
        ship_entity(Colour::Red, (grid.0 / 2, (grid.1 - 2) as u16), (1, 1)),
    ).insert(handles.factory, factory_entity(0))
}

/// No two of the four handles are the same.
pub open spec fn distinct(handles: Handles) -> bool {
    &&& handles.ship != handles.factory
    &&& handles.ship != handles.frame_counter
    &&& handles.ship != handles.score_counter
    &&& handles.factory != handles.frame_counter
    &&& handles.factory != handles.score_counter
    &&& handles.frame_counter != handles.score_counter
}

/// The ship's column after a frame's input. Right is looked at first, so it
/// wins where both keys are down; each direction wraps at its edge.
pub open spec fn steered(column: u16, width: u16, right: bool, left: bool) -> u16 {
    if right {
        if column + 1 < width {
            (column + 1) as u16
        } else {
            0
        }
    } else if left {
        if column > 0 {
            (column - 1) as u16
        } else {
            (width - 1) as u16
        }
    } else {
        column
    }
}

/// The entity `a` at another position.
pub open spec fn placed(a: Attributes, at: (u16, u16)) -> Attributes {
    Attributes { position: Some(at), ..a }
}

/// The entity `a` with another count.
pub open spec fn counting(a: Attributes, value: u64) -> Attributes {
    Attributes { counter: Some(value), ..a }
}

/// The entity `a` with another text.
pub open spec fn saying(a: Attributes, text: Seq<char>) -> Attributes {
    Attributes { text: Some(text), ..a }
}

/// Some falling enemy stands at `at`.
pub open spec fn hit(m: Model, at: (u16, u16)) -> bool {
    exists|h: u64| #[trigger] m.dom().contains(h) && enemy_position_of(m[h]) == Some(at)
}

/// The ship's column after a frame's input.
pub fn next_column(column: u16, width: u16, right: bool, left: bool) -> (next: u16)
    requires
        column < width,
    ensures
        next == steered(column, width, right, left),
        next < width,
{
    if right {
        if column < width - 1 {
            column + 1
        } else {
            0
        }
    } else if left {
        if column > 0 {
            column - 1
        } else {
            width - 1
        }
    } else {
        column
    }
}

/// Steering keeps the ship on the grid and wraps at both edges: left from
/// column 0 leads to the last column, right from the last column to column 0.
pub proof fn lemma_steering_wraps(column: u16, width: u16, right: bool, left: bool)
    requires
        column < width,
    ensures
        steered(column, width, right, left) < width,
        !right && left && column == 0 ==> steered(column, width, right, left) == width - 1,
        right && column == width - 1 ==> steered(column, width, right, left) == 0,
        right && column < width - 1 ==> steered(column, width, right, left) == column + 1,
        !right && left && column > 0 ==> steered(column, width, right, left) == column - 1,
        !right && !left ==> steered(column, width, right, left) == column,
{
}

/// A new round on a grid of the given width and height: counters at 0, the
/// ship in the middle column of the last row but one, no enemy.
pub fn create_new_world(grid_size: (u16, u16)) -> (round: Round)
    requires
        grid_size.0 >= 1,
        grid_size.1 >= 2,
    ensures
        round.wf(),
        round.grid == grid_size,
        distinct(round.handles),
        round@ == initial_model(round.handles, grid_size),
        round.frame() == 0,
        round.score() == 0,
        round.countdown() == 0,
        round.ship_position() == (grid_size.0 / 2, (grid_size.1 - 2) as u16),
{
    let mut world = new_world();
    let frame_counter = spawn_frame_counter(&mut world, 0);
    let score_counter = spawn_score_counter(
        &mut world,
        0,
        score_text(0),
        (10, 30),
        (30, Colour::White),
    );
    let ship = spawn_ship(
        &mut world,
        Colour::Red,
        (grid_size.0 / 2, grid_size.1 - 2),
        (1, 1),
    );
    let factory = spawn_factory(&mut world, 0);
    let handles = Handles { ship, factory, frame_counter, score_counter };
    Round { world, handles, grid: grid_size }
}

/// The column of the `i`-th enemy of a wave that leaves out column `hole`.
pub open spec fn wave_column(i: int, hole: u16) -> int {
    if i < hole {
        i
    } else {
        i + 1
    }
}

/// How many enemies a wave over the columns below `columns` has, with
/// column `hole` left out.
pub open spec fn wave_size(columns: int, hole: u16) -> int {
    if hole < columns {
        columns - 1
    } else {
        columns
    }
}

/// `after` is `before` with one new enemy in row 0 of each column below
/// `columns` but `hole`; `spawned` holds their handles by rising column.
pub open spec fn wave(before: Model, after: Model, spawned: Seq<u64>, columns: int, hole: u16) -> bool {
    &&& spawned.len() == wave_size(columns, hole)
    &&& forall|i: int|
        0 <= i < spawned.len() ==> !before.dom().contains(#[trigger] spawned[i])
            && after.dom().contains(spawned[i]) && after[spawned[i]] == enemy_entity(
            Colour::Blue,
            (wave_column(i, hole) as u16, 0),
            (1, 1),
            FALL_SPEED,
        )
    &&& forall|i: int, j: int|
        0 <= i < j < spawned.len() ==> #[trigger] spawned[i] != #[trigger] spawned[j]
    &&& forall|h: u64| #[trigger]
        before.dom().contains(h) ==> after.dom().contains(h) && after[h] == before[h]
    &&& forall|h: u64| #[trigger]
        after.dom().contains(h) ==> before.dom().contains(h) || spawned.contains(h)
}

/// What a tick of the factory does, where `hole` is the column drawn for
/// the gap: at countdown 0 a wave over the columns 0 to `width`, both
/// included, and a countdown of one less than the respawn interval;
/// otherwise no enemy and a countdown of one less than before.
pub open spec fn factory_outcome(
    before: Model,
    after: Model,
    spawned: Seq<u64>,
    factory: u64,
    width: u16,
    hole: u16,
) -> bool {
    if before[factory].counter == Some(0u64) {
        wave(
            before.insert(factory, counting(before[factory], (RESPAWN_INTERVAL - 1) as u64)),
            after,
            spawned,
            width + 1,
            hole,
        )
    } else {
        spawned.len() == 0 && after == before.insert(
            factory,
            counting(before[factory], (before[factory].counter.unwrap() - 1) as u64),
        )
    }
}

/// A falling enemy in the grid's last row.
pub open spec fn expired(a: Attributes, height: u16) -> bool {
    a.enemy && a.position.is_some() && a.position.unwrap().1 == height - 1
}

/// Some falling enemy is in the grid's last row.
pub open spec fn any_expired(m: Model, height: u16) -> bool {
    exists|h: u64| #[trigger] m.dom().contains(h) && expired(m[h], height)
}

/// The world without the enemies of the last row; where there was one, the
/// score is one step further, however many there were.
pub open spec fn swept(m: Model, score_counter: u64, height: u16) -> Model {
    Map::new(
        |h: u64| m.dom().contains(h) && !expired(m[h], height),
        |h: u64|
            if h == score_counter && any_expired(m, height) {
                counting(m[h], wrap_inc(m[h].counter.unwrap()))
            } else {
                m[h]
            },
    )
}

/// The world in which the first `n` of `items` are gone if they were in the last row.
pub open spec fn partly_swept<T>(m: Model, items: Seq<(u64, T)>, n: int, height: u16) -> Model {
    Map::new(
        |h: u64| m.dom().contains(h) && !(listed(items, n, h) && expired(m[h], height)),
        |h: u64| m[h],
    )
}

/// An entity after the enemies have moved on frame `frame`: a falling enemy
/// whose speed divides the frame's number is one row further down.
pub open spec fn fallen_entity(a: Attributes, frame: u64) -> Attributes {
    match enemy_motion_of(a) {
        Some((at, speed)) => if speed != 0 && frame % (speed as u64) == 0 {
            placed(a, (at.0, (at.1 + 1) as u16))
        } else {
            a
        },
        None => a,
    }
}

/// The world after the enemies have moved on frame `frame`.
pub open spec fn fallen(m: Model, frame: u64) -> Model {
    Map::new(|h: u64| m.dom().contains(h), |h: u64| fallen_entity(m[h], frame))
}

/// An enemy moves on a frame exactly if its speed divides the frame's
/// number: with speed 10 on the frames 0, 10, 20 and so on, and it stays
/// where it is on every other frame.
pub proof fn lemma_fall_cadence(a: Attributes, frame: u64)
    requires
        enemy_motion_of(a).is_some(),
        a.speed.unwrap() != 0,
        a.position.unwrap().1 < u16::MAX,
    ensures
        frame % (a.speed.unwrap() as u64) == 0 ==> fallen_entity(a, frame).position == Some(
            (a.position.unwrap().0, (a.position.unwrap().1 + 1) as u16),
        ),
        frame % (a.speed.unwrap() as u64) != 0 ==> fallen_entity(a, frame) == a,
        a.speed == Some(10u16) ==> (fallen_entity(a, frame) != a <==> frame % 10 == 0),
{
}

/// A counter never overflows: from the largest value it goes to 0, from any
/// other to the next.
pub proof fn lemma_counter_wraps(c: u64)
    ensures
        c == u64::MAX ==> wrap_inc(c) == 0,
        c < u64::MAX ==> wrap_inc(c) == c + 1,
{
}

/// A wave whose gap lies on the grid has as many enemies as the grid has
/// columns: one for each column from 0 to the width but the gap.
pub proof fn lemma_wave_size(width: u16, hole: u16)
    requires
        hole <= width,
    ensures
        wave_size(width + 1, hole) == width,
        forall|i: int| 0 <= i < width ==> 0 <= #[trigger] wave_column(i, hole) <= width && wave_column(i, hole) != hole,
{
}

/// The score goes one step further on a frame on which enemies expire, and
/// stays on any other: never more than one step, however many expire.
pub proof fn lemma_score_once(m: Model, score_counter: u64, height: u16)
    requires
        m.dom().contains(score_counter),
        !m[score_counter].enemy,
        m[score_counter].counter.is_some(),
    ensures
        swept(m, score_counter, height).dom().contains(score_counter),
        swept(m, score_counter, height)[score_counter].counter == Some(
            if any_expired(m, height) {
                wrap_inc(m[score_counter].counter.unwrap())
            } else {
                m[score_counter].counter.unwrap()
            },
        ),
{
}

/// `quad_rand::gen_range` on `u32`: a number from `low` to `high`, whatever
/// the generator's state; and below `high` where `low` is 0 and `high` is
/// not, and fits in 16 bits (the generator scales a fraction below 1, which
/// is exact in that range, and rounds down).
#[verifier::external_body]
fn random_between(low: u32, high: u32) -> (drawn: u32)
    requires
        low <= high,
    ensures
        low <= drawn <= high,
        low == 0 && 0 < high <= 0xffff ==> drawn < high,
{
    quad_rand::gen_range(low, high)
}

/// Draws the column of a wave's gap: a column of the grid.
pub fn pick_hole(width: u16) -> (hole: u16)
    ensures
        width > 0 ==> hole < width,
        width == 0 ==> hole == 0,
{
    random_between(0, width as u32) as u16
}

/// The world after the ship has moved as the keys ask.
pub open spec fn steered_model(m: Model, ship: u64, width: u16, right: bool, left: bool) -> Model {
    m.insert(
        ship,
        placed(
            m[ship],
            (
                steered(m[ship].position.unwrap().0, width, right, left),
                m[ship].position.unwrap().1,
            ),
        ),
    )
}

/// The world after the score's text has been rewritten from its count.
pub open spec fn relabelled(m: Model, score_counter: u64) -> Model {
    m.insert(
        score_counter,
        saying(m[score_counter], score_label(m[score_counter].counter.unwrap())),
    )
}

/// `after` is the world one frame after `before`, with the keys as given
/// and `hole` as the column drawn for a wave's gap: the frame counter
/// advances, the ship moves, the factory ticks, the enemies of the last row
/// go and score, the others fall, and the score's text is rewritten.
pub open spec fn frame_outcome(
    before: Model,
    after: Model,
    handles: Handles,
    grid: (u16, u16),
    right: bool,
    left: bool,
    hole: u16,
) -> bool {
    exists|mid: Model, spawned: Seq<u64>| #[trigger]
        factory_outcome(
            steered_model(ticked(before), handles.ship, grid.0, right, left),
            mid,
            spawned,
            handles.factory,
            grid.0,
            hole,
        ) && after == relabelled(
            fallen(
                swept(mid, handles.score_counter, grid.1),
                wrap_inc(before[handles.frame_counter].counter.unwrap()),
            ),
            handles.score_counter,
        )
}

impl Round {
    /// The model of the round's world.
    pub open spec fn view(&self) -> Model {
        entities(self.world)
    }

    /// The invariant of a round between two frames.
    pub open spec fn wf(&self) -> bool {
        well_formed(self@, self.handles, self.grid)
    }

    /// The count of the frame counter.
    pub open spec fn frame(&self) -> u64 {
        self@[self.handles.frame_counter].counter.unwrap()
    }

    /// The score.
    pub open spec fn score(&self) -> u64 {
        self@[self.handles.score_counter].counter.unwrap()
    }

    /// The countdown of the enemy factory.
    pub open spec fn countdown(&self) -> u64 {
        self@[self.handles.factory].counter.unwrap()
    }

    /// The ship's column and row.
    pub open spec fn ship_position(&self) -> (u16, u16) {
        self@[self.handles.ship].position.unwrap()
    }

    /// Advances every frame counter by one, from the largest value to 0, and
    /// returns the new count of the round's frame counter.
    pub fn tick_frame_counter(&mut self) -> (frame: u64)
        requires
            old(self).wf(),
        ensures
            final(self).wf(),
            final(self).handles == old(self).handles,
            final(self).grid == old(self).grid,
            final(self)@ == ticked(old(self)@),
            frame == wrap_inc(old(self).frame()),
            frame == final(self).frame(),
    {
        let ghost before = self@;
        let items = frame_counters(&mut self.world);
        let mut i: usize = 0;
        while i < items.len()
            invariant
                0 <= i <= items.len(),
                lists(items@, before, |a: Attributes| frame_count_of(a)),
                self@ =~= partly(before, items@, i as int, |a: Attributes| ticked_entity(a)),
                self.handles == old(self).handles,
                self.grid == old(self).grid,
            decreases items.len() - i,
        {
            let (handle, count) = items[i];
            let next: u64 = if count != u64::MAX {
                count + 1
            } else {
                0
            };
            assert(!listed(items@, i as int, handle));
            let _ = set_counter(&mut self.world, handle, next);
            proof {
                assert(items@[i as int].0 == handle);
                lemma_listed_next(items@, i as int);
            }
            i += 1;
        }
        proof {
            assert(self@ =~= ticked(before));
        }
        get_counter(&mut self.world, self.handles.frame_counter).unwrap()
    }

    /// Moves the ship by one column as the keys ask, right before left, with
    /// a wrap at either edge of the grid.
    pub fn move_ship(&mut self, right: bool, left: bool)
        requires
            old(self).wf(),
        ensures
            final(self).wf(),
            final(self).handles == old(self).handles,
            final(self).grid == old(self).grid,
            final(self)@ == old(self)@.insert(
                old(self).handles.ship,
                placed(
                    old(self)@[old(self).handles.ship],
                    (
                        steered(old(self).ship_position().0, old(self).grid.0, right, left),
                        old(self).ship_position().1,
                    ),
                ),
            ),
    {
        let at = get_position(&mut self.world, self.handles.ship).unwrap();
        let column = next_column(at.0, self.grid.0, right, left);
        let _ = set_position(&mut self.world, self.handles.ship, (column, at.1));
    }

    /// Rewrites the score counter's text from its count.
    pub fn refresh_score_text(&mut self)
        requires
            old(self).wf(),
        ensures
            final(self).wf(),
            final(self).handles == old(self).handles,
            final(self).grid == old(self).grid,
            final(self)@ == old(self)@.insert(
                old(self).handles.score_counter,
                saying(old(self)@[old(self).handles.score_counter], score_label(old(self).score())),
            ),
    {
        let score = get_counter(&mut self.world, self.handles.score_counter).unwrap();
        let _ = set_text(&mut self.world, self.handles.score_counter, score_text(score));
    }

    /// Whether a falling enemy stands exactly where the ship stands.
    pub fn collides(&mut self) -> (hit_ship: bool)
        requires
            old(self).wf(),
        ensures
            final(self)@ == old(self)@,
            final(self).handles == old(self).handles,
            final(self).grid == old(self).grid,
            hit_ship == hit(old(self)@, old(self).ship_position()),
    {
        let ghost before = self@;
        let at = get_position(&mut self.world, self.handles.ship).unwrap();
        let items = enemy_positions(&mut self.world);
        let mut found = false;
        let mut i: usize = 0;
        while i < items.len()
            invariant
                0 <= i <= items.len(),
                lists(items@, before, |a: Attributes| enemy_position_of(a)),
                found <==> exists|j: int| 0 <= j < i && (#[trigger] items@[j]).1 == at,
            decreases items.len() - i,
        {
            let (_, position) = items[i];
            if position.0 == at.0 && position.1 == at.1 {
                found = true;
            }
            i += 1;
        }
        proof {
            if found {
                let j = choose|j: int| 0 <= j < items@.len() && (#[trigger] items@[j]).1 == at;
                assert(before.dom().contains(items@[j].0));
            }
            if hit(before, at) {
                let h = choose|h: u64| #[trigger]
                    before.dom().contains(h) && enemy_position_of(before[h]) == Some(at);
                assert(listed(items@, items@.len() as int, h));
            }
        }
        found
    }

    /// Spawns a falling enemy in row 0 of every column from 0 to the grid's
    /// width, both included, but `hole`, and returns their handles.
    pub fn spawn_wave(&mut self, hole: u16) -> (spawned: Vec<u64>)
        ensures
            final(self).handles == old(self).handles,
            final(self).grid == old(self).grid,
            wave(old(self)@, final(self)@, spawned@, old(self).grid.0 + 1, hole),
    {
        let ghost before = self@;
        let mut spawned: Vec<u64> = Vec::new();
        let mut x: u32 = 0;
        let columns: u32 = self.grid.0 as u32 + 1;
        while x < columns
            invariant
                0 <= x <= columns,
                columns == self.grid.0 + 1,
                self.handles == old(self).handles,
                self.grid == old(self).grid,
                wave(before, self@, spawned@, x as int, hole),
            decreases columns - x,
        {
            if x != hole as u32 {
                let ghost mid = self@;
                let ghost earlier = spawned@;
                let handle = spawn_enemy(
                    &mut self.world,
                    Colour::Blue,
                    (x as u16, 0),
                    (1, 1),
                    FALL_SPEED,
                );
                spawned.push(handle);
                proof {
                    assert(wave_column(earlier.len() as int, hole) == x);
                    assert forall|i: int| 0 <= i < earlier.len() implies earlier[i] != handle by {
                        assert(mid.dom().contains(earlier[i]));
                    }
                    assert forall|h: u64| #[trigger] self@.dom().contains(h) implies before.dom().contains(
                        h,
                    ) || spawned@.contains(h) by {
                        if h == handle {
                            assert(spawned@[earlier.len() as int] == h);
                        } else {
                            assert(mid.dom().contains(h));
                            if !before.dom().contains(h) {
                                let k = choose|k: int| 0 <= k < earlier.len() && earlier[k] == h;
                                assert(spawned@[k] == h);
                            }
                        }
                    }
                }
            }
            x += 1;
        }
        spawned
    }

    /// One tick of the enemy factory, with `hole` as the column of the gap
    /// should a wave be due: at countdown 0 the countdown starts again and a
    /// wave is spawned; then the countdown goes down by one. Returns the
    /// handles of the enemies spawned.
    pub fn factory_tick_with(&mut self, hole: u16) -> (spawned: Vec<u64>)
        requires
            old(self).wf(),
        ensures
            final(self).wf(),
            final(self).handles == old(self).handles,
            final(self).grid == old(self).grid,
            factory_outcome(
                old(self)@,
                final(self)@,
                spawned@,
                old(self).handles.factory,
                old(self).grid.0,
                hole,
            ),
    {
        let ghost before = self@;
        let factory = self.handles.factory;
        let mut countdown = get_counter(&mut self.world, factory).unwrap();
        let mut spawned: Vec<u64> = Vec::new();
        if countdown == 0 {
            countdown = RESPAWN_INTERVAL;
            spawned = self.spawn_wave(hole);
        }
        countdown = countdown - 1;
        let ghost mid = self@;
        let _ = set_counter(&mut self.world, factory, countdown);
        proof {
            if before[factory].counter == Some(0u64) {
                let start = before.insert(factory, counting(before[factory], countdown));
                assert forall|h: u64| #[trigger] self@.dom().contains(h) implies start.dom().contains(h)
                    || spawned@.contains(h) by {
                    assert(mid.dom().contains(h));
                }
                assert(wave(start, self@, spawned@, self.grid.0 + 1, hole));
            }
            assert forall|h: u64| #[trigger] self@.dom().contains(h) implies entity_fits(
                self@[h],
                h,
                self.handles,
                self.grid,
            ) by {
                if !before.dom().contains(h) {
                    assert(mid.dom().contains(h));
                    assert(spawned@.contains(h));
                }
            }
        }
        spawned
    }

    /// One tick of the enemy factory. The column of a wave's gap is drawn at
    /// random among the grid's columns, and only where a wave is due.
    pub fn factory_tick(&mut self) -> (spawned: Vec<u64>)
        requires
            old(self).wf(),
        ensures
            final(self).wf(),
            final(self).handles == old(self).handles,
            final(self).grid == old(self).grid,
            exists|hole: u16|
                hole < old(self).grid.0 && #[trigger] factory_outcome(
                    old(self)@,
                    final(self)@,
                    spawned@,
                    old(self).handles.factory,
                    old(self).grid.0,
                    hole,
                ),
    {
        let countdown = get_counter(&mut self.world, self.handles.factory).unwrap();
        let hole: u16 = if countdown == 0 {
            pick_hole(self.grid.0)
        } else {
            0
        };
        self.factory_tick_with(hole)
    }

    /// Destroys every falling enemy in the grid's last row and, where there
    /// was one, moves the score on by one step. Says whether there was one.
    pub fn sweep(&mut self) -> (scored: bool)
        requires
            old(self).wf(),
        ensures
            final(self).wf(),
            final(self).handles == old(self).handles,
            final(self).grid == old(self).grid,
            final(self)@ == swept(old(self)@, old(self).handles.score_counter, old(self).grid.1),
            scored == any_expired(old(self)@, old(self).grid.1),
            final(self).score() == if scored {
                wrap_inc(old(self).score())
            } else {
                old(self).score()
            },
            !any_expired(final(self)@, final(self).grid.1),
    {
        let ghost before = self@;
        let height = self.grid.1;
        let items = enemy_positions(&mut self.world);
        let mut scored = false;
        let mut i: usize = 0;
        while i < items.len()
            invariant
                0 <= i <= items.len(),
                height == self.grid.1,
                height >= 2,
                lists(items@, before, |a: Attributes| enemy_position_of(a)),
                self@ =~= partly_swept(before, items@, i as int, height),
                scored <==> exists|j: int| 0 <= j < i && expired(before[(#[trigger] items@[j]).0], height),
                self.handles == old(self).handles,
                self.grid == old(self).grid,
            decreases items.len() - i,
        {
            let (handle, position) = items[i];
            proof {
                assert(items@[i as int].0 == handle);
                assert(!listed(items@, i as int, handle));
                lemma_listed_next(items@, i as int);
            }
            if position.1 == height - 1 {
                let _ = despawn(&mut self.world, handle);
                scored = true;
            }
            i += 1;
        }
        proof {
            if scored {
                let j = choose|j: int|
                    0 <= j < items@.len() && expired(before[(#[trigger] items@[j]).0], height);
                assert(before.dom().contains(items@[j].0));
            }
            if any_expired(before, height) {
                let h = choose|h: u64| #[trigger] before.dom().contains(h) && expired(before[h], height);
                assert(listed(items@, items@.len() as int, h));
            }
            assert forall|h: u64| before.dom().contains(h) && expired(before[h], height) implies listed(
                items@,
                items@.len() as int,
                h,
            ) by {
                assert(before.dom().contains(h));
            }
        }
        if scored {
            let score = get_counter(&mut self.world, self.handles.score_counter).unwrap();
            let next: u64 = if score != u64::MAX {
                score + 1
            } else {
                0
            };
            let _ = set_counter(&mut self.world, self.handles.score_counter, next);
        }
        proof {
            assert(self@ =~= swept(before, self.handles.score_counter, height));
        }
        scored
    }

    /// Moves every falling enemy whose speed divides `frame` down by one row.
    pub fn move_enemies(&mut self, frame: u64)
        requires
            old(self).wf(),
            !any_expired(old(self)@, old(self).grid.1),
        ensures
            final(self).wf(),
            final(self).handles == old(self).handles,
            final(self).grid == old(self).grid,
            final(self)@ == fallen(old(self)@, frame),
    {
        let ghost before = self@;
        let items = enemy_motions(&mut self.world);
        let mut i: usize = 0;
        while i < items.len()
            invariant
                0 <= i <= items.len(),
                well_formed(before, self.handles, self.grid),
                !any_expired(before, self.grid.1),
                lists(items@, before, |a: Attributes| enemy_motion_of(a)),
                self@ =~= partly(before, items@, i as int, |a: Attributes| fallen_entity(a, frame)),
                self.handles == old(self).handles,
                self.grid == old(self).grid,
            decreases items.len() - i,
        {
            let (handle, motion) = items[i];
            let (at, speed) = motion;
            proof {
                assert(items@[i as int].0 == handle);
                assert(before.dom().contains(handle));
                assert(!expired(before[handle], self.grid.1));
                assert(!listed(items@, i as int, handle));
                lemma_listed_next(items@, i as int);
            }
            if frame % (speed as u64) == 0 {
                let _ = set_position(&mut self.world, handle, (at.0, at.1 + 1));
            }
            i += 1;
        }
        proof {
            assert(self@ =~= fallen(before, frame));
            assert forall|h: u64| #[trigger] self@.dom().contains(h) implies entity_fits(
                self@[h],
                h,
                self.handles,
                self.grid,
            ) by {
                assert(before.dom().contains(h));
                assert(!expired(before[h], self.grid.1));
            }
        }
    }

    /// One frame of the simulation, with `hole` as the column of the gap
    /// should a wave be due on it. The round has ended if an enemy stands on
    /// the ship once everything has moved.
    pub fn step_with(&mut self, right: bool, left: bool, hole: u16) -> (state: RoundState)
        requires
            old(self).wf(),
        ensures
            final(self).wf(),
            final(self).handles == old(self).handles,
            final(self).grid == old(self).grid,
            frame_outcome(
                old(self)@,
                final(self)@,
                old(self).handles,
                old(self).grid,
                right,
                left,
                hole,
            ),
            final(self).frame() == wrap_inc(old(self).frame()),
            final(self).ship_position() == (
                steered(old(self).ship_position().0, old(self).grid.0, right, left),
                old(self).ship_position().1,
            ),
            final(self).score() == old(self).score() || final(self).score() == wrap_inc(
                old(self).score(),
            ),
            final(self)@[final(self).handles.score_counter].text == Some(
                score_label(final(self).score()),
            ),
            state == RoundState::Ended <==> hit(final(self)@, final(self).ship_position()),
    {
        let ghost before = self@;
        let frame = self.tick_frame_counter();
        self.move_ship(right, left);
        let ghost steered = self@;
        let spawned = self.factory_tick_with(hole);
        let ghost mid = self@;
        let _ = self.sweep();
        self.move_enemies(frame);
        self.refresh_score_text();
        proof {
            assert(factory_outcome(
                steered_model(ticked(before), self.handles.ship, self.grid.0, right, left),
                mid,
                spawned@,
                self.handles.factory,
                self.grid.0,
                hole,
            ));
            assert(self@ == relabelled(
                fallen(swept(mid, self.handles.score_counter, self.grid.1), frame),
                self.handles.score_counter,
            ));
        }
        if self.collides() {
            RoundState::Ended
        } else {
            RoundState::Running
        }
    }

    /// One frame of the simulation. Where a wave is due on it, the column of
    /// its gap is drawn at random among the grid's columns.
    pub fn step(&mut self, right: bool, left: bool) -> (state: RoundState)
        requires
            old(self).wf(),
        ensures
            final(self).wf(),
            final(self).handles == old(self).handles,
            final(self).grid == old(self).grid,
            exists|hole: u16|
                hole < old(self).grid.0 && #[trigger] frame_outcome(
                    old(self)@,
                    final(self)@,
                    old(self).handles,
                    old(self).grid,
                    right,
                    left,
                    hole,
                ),
            final(self).frame() == wrap_inc(old(self).frame()),
            final(self).ship_position() == (
                steered(old(self).ship_position().0, old(self).grid.0, right, left),
                old(self).ship_position().1,
            ),
            final(self).score() == old(self).score() || final(self).score() == wrap_inc(
                old(self).score(),
            ),
            final(self)@[final(self).handles.score_counter].text == Some(
                score_label(final(self).score()),
            ),
            state == RoundState::Ended <==> hit(final(self)@, final(self).ship_position()),
    {
        let countdown = get_counter(&mut self.world, self.handles.factory).unwrap();
        let hole: u16 = if countdown == 0 {
            pick_hole(self.grid.0)
        } else {
            0
        };
        self.step_with(right, left, hole)
    }

    /// The score as it stands.
    pub fn current_score(&mut self) -> (score: u64)
        requires
            old(self).wf(),
        ensures
            final(self)@ == old(self)@,
            final(self).handles == old(self).handles,
            final(self).grid == old(self).grid,
            score == old(self).score(),
    {
        get_counter(&mut self.world, self.handles.score_counter).unwrap()
    }
}

} // verus!
