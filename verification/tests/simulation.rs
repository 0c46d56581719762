use hecs::Entity;
use spaceship::components::{
    CellPosition, CellRender, CellSize, Colour, Counter, FallingEnemy, Speed, TextContent,
};
use spaceship::round::{create_new_world, next_column, pick_hole, Round, RoundState};

fn entity(handle: u64) -> Entity {
    Entity::from_bits(handle).unwrap()
}

fn counter(round: &mut Round, handle: u64) -> u64 {
    round.world.query_one_mut::<&Counter>(entity(handle)).unwrap().0
}

fn set_counter(round: &mut Round, handle: u64, value: u64) {
    round.world.query_one_mut::<&mut Counter>(entity(handle)).unwrap().0 = value;
}

fn position(round: &mut Round, handle: u64) -> (u16, u16) {
    let at = round.world.query_one_mut::<&CellPosition>(entity(handle)).unwrap();
    (at.0, at.1)
}

fn place(round: &mut Round, handle: u64, at: (u16, u16)) {
    *round.world.query_one_mut::<&mut CellPosition>(entity(handle)).unwrap() =
        CellPosition(at.0, at.1);
}

fn add_enemy(round: &mut Round, at: (u16, u16), speed: u16) -> u64 {
    let bundle = (
        FallingEnemy,
        CellRender(Colour::Blue),
        CellPosition(at.0, at.1),
        CellSize(1, 1),
        Speed(speed),
    );
    round.world.spawn(bundle).to_bits().get()
}

fn enemies(round: &mut Round) -> Vec<(u64, (u16, u16), u16)> {
    let mut found: Vec<(u64, (u16, u16), u16)> = round
        .world
        .query_mut::<(Entity, &FallingEnemy, &CellPosition, &Speed)>()
        .into_iter()
        .map(|(e, _, at, speed)| (e.to_bits().get(), (at.0, at.1), speed.0))
        .collect();
    found.sort_by_key(|item| item.1);
    found
}

fn score_text_of(round: &mut Round) -> String {
    let handle = round.handles.score_counter;
    round.world.query_one_mut::<&TextContent>(entity(handle)).unwrap().0.clone()
}

#[test]
fn new_world_holds_the_four_fixed_entities() {
    let mut round = create_new_world((20, 20));
    let handles = round.handles;
    assert_eq!(round.grid, (20, 20));
    assert_eq!(round.world.len(), 4);
    assert_eq!(counter(&mut round, handles.frame_counter), 0);
    assert_eq!(counter(&mut round, handles.score_counter), 0);
    assert_eq!(counter(&mut round, handles.factory), 0);
    assert_eq!(position(&mut round, handles.ship), (10, 18));
    assert_eq!(score_text_of(&mut round), "Score: 0");
    assert!(enemies(&mut round).is_empty());
}

#[test]
fn new_world_on_the_smallest_grid() {
    let mut round = create_new_world((1, 2));
    let ship = round.handles.ship;
    assert_eq!(position(&mut round, ship), (0, 0));
}

#[test]
fn frame_counter_counts_up() {
    let mut round = create_new_world((20, 20));
    assert_eq!(round.tick_frame_counter(), 1);
    assert_eq!(round.tick_frame_counter(), 2);
    let handle = round.handles.frame_counter;
    assert_eq!(counter(&mut round, handle), 2);
}

#[test]
fn frame_counter_wraps_to_zero_at_the_maximum() {
    let mut round = create_new_world((20, 20));
    let handle = round.handles.frame_counter;
    set_counter(&mut round, handle, u64::MAX - 1);
    assert_eq!(round.tick_frame_counter(), u64::MAX);
    assert_eq!(round.tick_frame_counter(), 0);
    assert_eq!(counter(&mut round, handle), 0);
    assert_eq!(round.tick_frame_counter(), 1);
}

#[test]
fn frame_counter_tick_leaves_other_counters_alone() {
    let mut round = create_new_world((20, 20));
    let handles = round.handles;
    set_counter(&mut round, handles.score_counter, 7);
    set_counter(&mut round, handles.factory, 50);
    round.tick_frame_counter();
    assert_eq!(counter(&mut round, handles.score_counter), 7);
    assert_eq!(counter(&mut round, handles.factory), 50);
}

#[test]
fn ship_column_wraps_at_both_edges() {
    assert_eq!(next_column(0, 20, false, true), 19);
    assert_eq!(next_column(19, 20, true, false), 0);
}

#[test]
fn ship_column_moves_by_one_inside_the_grid() {
    assert_eq!(next_column(5, 20, true, false), 6);
    assert_eq!(next_column(5, 20, false, true), 4);
    assert_eq!(next_column(5, 20, false, false), 5);
    assert_eq!(next_column(18, 20, true, false), 19);
    assert_eq!(next_column(1, 20, false, true), 0);
}

#[test]
fn ship_column_right_wins_over_left() {
    assert_eq!(next_column(5, 20, true, true), 6);
    assert_eq!(next_column(0, 20, true, true), 1);
    assert_eq!(next_column(19, 20, true, true), 0);
}

#[test]
fn ship_column_on_a_grid_of_one_column() {
    assert_eq!(next_column(0, 1, true, false), 0);
    assert_eq!(next_column(0, 1, false, true), 0);
}

#[test]
fn ship_column_never_leaves_the_grid() {
    for width in 1u16..30 {
        for column in 0..width {
            for keys in 0..4 {
                let next = next_column(column, width, keys & 1 == 1, keys & 2 == 2);
                assert!(next < width);
            }
        }
    }
}

#[test]
fn move_ship_changes_only_the_column() {
    let mut round = create_new_world((20, 20));
    let ship = round.handles.ship;
    round.move_ship(true, false);
    assert_eq!(position(&mut round, ship), (11, 18));
    round.move_ship(false, true);
    round.move_ship(false, true);
    assert_eq!(position(&mut round, ship), (9, 18));
    round.move_ship(false, false);
    assert_eq!(position(&mut round, ship), (9, 18));
}

#[test]
fn move_ship_wraps_in_the_world() {
    let mut round = create_new_world((20, 20));
    let ship = round.handles.ship;
    place(&mut round, ship, (0, 18));
    round.move_ship(false, true);
    assert_eq!(position(&mut round, ship), (19, 18));
    round.move_ship(true, false);
    assert_eq!(position(&mut round, ship), (0, 18));
}

#[test]
fn factory_at_zero_spawns_a_wave_with_one_hole() {
    let mut round = create_new_world((20, 20));
    let factory = round.handles.factory;
    let spawned = round.factory_tick_with(7);
    assert_eq!(spawned.len(), 20);
    assert_eq!(counter(&mut round, factory), 119);
    let found = enemies(&mut round);
    assert_eq!(found.len(), 20);
    let mut expected: Vec<u16> = (0..=20).collect();
    expected.retain(|x| *x != 7);
    let columns: Vec<u16> = found.iter().map(|item| item.1 .0).collect();
    assert_eq!(columns, expected);
    for (i, item) in found.iter().enumerate() {
        assert_eq!(item.1 .1, 0);
        assert_eq!(item.2, 10);
        assert_eq!(item.0, spawned[i]);
    }
}

#[test]
fn factory_with_a_hole_beyond_the_grid_fills_every_column() {
    let mut round = create_new_world((3, 5));
    let spawned = round.factory_tick_with(9);
    assert_eq!(spawned.len(), 4);
    let columns: Vec<u16> = enemies(&mut round).iter().map(|item| item.1 .0).collect();
    assert_eq!(columns, vec![0, 1, 2, 3]);
}

#[test]
fn factory_draws_its_hole_among_the_columns() {
    for _ in 0..50 {
        let mut round = create_new_world((20, 20));
        let factory = round.handles.factory;
        let spawned = round.factory_tick();
        assert_eq!(spawned.len(), 20);
        assert_eq!(counter(&mut round, factory), 119);
        let columns: Vec<u16> = enemies(&mut round).iter().map(|item| item.1 .0).collect();
        let missing: Vec<u16> = (0..=20).filter(|x| !columns.contains(x)).collect();
        assert_eq!(missing.len(), 1);
        assert!(missing[0] < 20);
        assert!(columns.contains(&20));
    }
}

#[test]
fn factory_counts_down_between_waves() {
    let mut round = create_new_world((20, 20));
    let factory = round.handles.factory;
    set_counter(&mut round, factory, 5);
    assert!(round.factory_tick().is_empty());
    assert_eq!(counter(&mut round, factory), 4);
    assert!(round.factory_tick_with(3).is_empty());
    assert_eq!(counter(&mut round, factory), 3);
    assert!(enemies(&mut round).is_empty());
    set_counter(&mut round, factory, 1);
    assert!(round.factory_tick().is_empty());
    assert_eq!(counter(&mut round, factory), 0);
    assert_eq!(round.factory_tick().len(), 20);
}

#[test]
fn spawn_wave_returns_the_handles_by_column() {
    let mut round = create_new_world((4, 4));
    let spawned = round.spawn_wave(0);
    assert_eq!(spawned.len(), 4);
    for (i, handle) in spawned.iter().enumerate() {
        assert_eq!(position(&mut round, *handle), (i as u16 + 1, 0));
    }
}

#[test]
fn three_enemies_expiring_together_score_once() {
    let mut round = create_new_world((20, 20));
    let score = round.handles.score_counter;
    add_enemy(&mut round, (2, 19), 10);
    add_enemy(&mut round, (3, 19), 10);
    add_enemy(&mut round, (4, 19), 10);
    let kept = add_enemy(&mut round, (5, 18), 10);
    assert!(round.sweep());
    assert_eq!(counter(&mut round, score), 1);
    let left = enemies(&mut round);
    assert_eq!(left.len(), 1);
    assert_eq!(left[0].0, kept);
    assert_eq!(left[0].1, (5, 18));
}

#[test]
fn sweep_without_expired_enemies_scores_nothing() {
    let mut round = create_new_world((20, 20));
    let score = round.handles.score_counter;
    add_enemy(&mut round, (2, 0), 10);
    add_enemy(&mut round, (3, 18), 10);
    assert!(!round.sweep());
    assert_eq!(counter(&mut round, score), 0);
    assert_eq!(enemies(&mut round).len(), 2);
}

#[test]
fn sweep_wraps_the_score_at_the_maximum() {
    let mut round = create_new_world((20, 20));
    let score = round.handles.score_counter;
    set_counter(&mut round, score, u64::MAX);
    add_enemy(&mut round, (2, 19), 10);
    assert!(round.sweep());
    assert_eq!(counter(&mut round, score), 0);
}

#[test]
fn enemy_of_speed_ten_moves_on_every_tenth_frame() {
    let mut round = create_new_world((20, 200));
    let enemy = add_enemy(&mut round, (3, 0), 10);
    let mut row = 0;
    for frame in 0u64..45 {
        round.move_enemies(frame);
        if frame % 10 == 0 {
            row += 1;
        }
        assert_eq!(position(&mut round, enemy), (3, row));
    }
    assert_eq!(row, 5);
}

#[test]
fn enemies_move_each_by_their_own_speed() {
    let mut round = create_new_world((20, 20));
    let slow = add_enemy(&mut round, (1, 0), 4);
    let fast = add_enemy(&mut round, (2, 5), 1);
    let ship = round.handles.ship;
    round.move_enemies(3);
    assert_eq!(position(&mut round, slow), (1, 0));
    assert_eq!(position(&mut round, fast), (2, 6));
    round.move_enemies(8);
    assert_eq!(position(&mut round, slow), (1, 1));
    assert_eq!(position(&mut round, fast), (2, 7));
    assert_eq!(position(&mut round, ship), (10, 18));
}

#[test]
fn score_text_follows_the_counter() {
    let mut round = create_new_world((20, 20));
    let score = round.handles.score_counter;
    set_counter(&mut round, score, 42);
    assert_eq!(score_text_of(&mut round), "Score: 0");
    round.refresh_score_text();
    assert_eq!(score_text_of(&mut round), "Score: 42");
    assert_eq!(round.current_score(), 42);
}

#[test]
fn enemy_on_the_ship_is_a_collision() {
    let mut round = create_new_world((20, 20));
    let ship = round.handles.ship;
    place(&mut round, ship, (5, 18));
    add_enemy(&mut round, (5, 18), 10);
    assert!(round.collides());
}

#[test]
fn enemy_above_the_ship_is_no_collision() {
    let mut round = create_new_world((20, 20));
    let ship = round.handles.ship;
    place(&mut round, ship, (5, 18));
    add_enemy(&mut round, (5, 17), 10);
    add_enemy(&mut round, (4, 18), 10);
    assert!(!round.collides());
}

#[test]
fn step_ends_the_round_when_an_enemy_lands_on_the_ship() {
    let mut round = create_new_world((20, 20));
    let handles = round.handles;
    place(&mut round, handles.ship, (5, 18));
    set_counter(&mut round, handles.frame_counter, 9);
    set_counter(&mut round, handles.factory, 50);
    let enemy = add_enemy(&mut round, (5, 17), 10);
    assert_eq!(round.step(false, false), RoundState::Ended);
    assert_eq!(position(&mut round, enemy), (5, 18));
}

#[test]
fn step_goes_on_while_the_enemy_is_above_the_ship() {
    let mut round = create_new_world((20, 20));
    let handles = round.handles;
    place(&mut round, handles.ship, (5, 18));
    set_counter(&mut round, handles.frame_counter, 3);
    set_counter(&mut round, handles.factory, 50);
    let enemy = add_enemy(&mut round, (5, 17), 10);
    assert_eq!(round.step(false, false), RoundState::Running);
    assert_eq!(position(&mut round, enemy), (5, 17));
    assert_eq!(counter(&mut round, handles.factory), 49);
    assert_eq!(counter(&mut round, handles.frame_counter), 4);
}

#[test]
fn first_step_spawns_the_first_wave() {
    let mut round = create_new_world((20, 20));
    let handles = round.handles;
    assert_eq!(round.step_with(true, false, 11), RoundState::Running);
    assert_eq!(counter(&mut round, handles.frame_counter), 1);
    assert_eq!(counter(&mut round, handles.factory), 119);
    assert_eq!(counter(&mut round, handles.score_counter), 0);
    assert_eq!(position(&mut round, handles.ship), (11, 18));
    assert_eq!(score_text_of(&mut round), "Score: 0");
    let found = enemies(&mut round);
    assert_eq!(found.len(), 20);
    for item in found.iter() {
        assert_ne!(item.1 .0, 11);
        assert_eq!(item.1 .1, 0);
    }
}

#[test]
fn a_wave_reaches_the_bottom_and_scores_one() {
    let mut round = create_new_world((20, 20));
    let handles = round.handles;
    let mut frames = 0;
    while counter(&mut round, handles.score_counter) == 0 {
        assert_eq!(round.step_with(false, false, 10), RoundState::Running);
        frames += 1;
        assert!(frames < 1000);
    }
    assert_eq!(counter(&mut round, handles.score_counter), 1);
    assert_eq!(score_text_of(&mut round), "Score: 1");
    assert_eq!(frames, 191);
}

#[test]
fn a_ship_under_the_wave_is_hit() {
    let mut round = create_new_world((20, 20));
    let mut frames = 0;
    while round.step_with(false, false, 3) == RoundState::Running {
        frames += 1;
        assert!(frames < 1000);
    }
    assert_eq!(frames + 1, 180);
    assert_eq!(round.current_score(), 0);
}

#[test]
fn hole_is_a_column_of_the_grid() {
    assert_eq!(pick_hole(0), 0);
    assert_eq!(pick_hole(1), 0);
    let mut seen = Vec::new();
    for _ in 0..200 {
        let hole = pick_hole(20);
        assert!(hole < 20);
        if !seen.contains(&hole) {
            seen.push(hole);
        }
    }
    assert!(seen.len() > 1);
    for _ in 0..200 {
        assert!(pick_hole(u16::MAX) < u16::MAX);
    }
}
