//! The entity store: a `hecs::World`, its model in contracts, and the calls
//! that the game makes on it.
//!
//! An entity is known by a 64-bit handle. The model of a world is the map
//! from the handles of its live entities to their attributes. Every function
//! below that is marked `external_body` calls into `hecs`; its contract is a
//! statement about `hecs` that this crate relies on and does not prove.

use vstd::prelude::*;
use hecs::{Entity, QueryOneError, World};
use crate::components::{
    Attributes, CellPosition, CellRender, CellSize, Colour, Counter, EnemyFactory, FallingEnemy,
    FrameCounter, ScoreCounter, SpaceShip, Speed, TextContent, TextPosition, TextRender,
    enemy_entity, factory_entity, frame_counter_entity, score_counter_entity, ship_entity,
};

verus! {

/// `hecs::World`, carried through as an opaque value.
#[verifier::external_type_specification]
#[verifier::external_body]
pub struct ExWorld(hecs::World);

/// The live entities of a world, by handle (the bits of a `hecs::Entity`),
/// each with the components it carries among those of this crate. An entity
/// that was reserved and not yet spawned counts as live, without attributes.
pub uninterp spec fn entities(world: World) -> Map<u64, Attributes>;

/// The model of a world.
pub type Model = Map<u64, Attributes>;

/// Why a call on the store failed.
#[derive(Clone, Copy, Debug, PartialEq, Eq, Structural)]
pub enum StoreError {
    /// No live entity has this handle.
    UnknownHandle,
    /// The entity lives but does not carry the attribute asked for.
    MissingAttribute,
}

/// What reading an attribute of `handle` gives.
pub open spec fn lookup<T>(m: Model, handle: u64, pick: spec_fn(Attributes) -> Option<T>) -> Result<
    T,
    StoreError,
> {
    if !m.dom().contains(handle) {
        Err(StoreError::UnknownHandle)
    } else {
        match pick(m[handle]) {
            Some(value) => Ok(value),
            None => Err(StoreError::MissingAttribute),
        }
    }
}

/// `outcome` and `after` are what writing an attribute of `handle` gives,
/// where `written` is the entity with the new value.
pub open spec fn updated<T>(
    before: Model,
    after: Model,
    handle: u64,
    present: Result<T, StoreError>,
    written: Attributes,
    outcome: Result<(), StoreError>,
) -> bool {
    match present {
        Ok(_) => outcome.is_ok() && after == before.insert(handle, written),
        Err(e) => outcome == failed(e) && after == before,
    }
}

/// The outcome of a write that failed with `e`.
pub open spec fn failed(e: StoreError) -> Result<(), StoreError> {
    Err(e)
}

/// `after` is `before` with one new entity `handle`, whose attributes are `attributes`.
pub open spec fn created(before: Model, after: Model, handle: u64, attributes: Attributes) -> bool {
    !before.dom().contains(handle) && after == before.insert(handle, attributes)
}

/// Some item among the first `n` has the handle `handle`.
pub open spec fn listed<T>(items: Seq<(u64, T)>, n: int, handle: u64) -> bool {
    exists|i: int| 0 <= i < n && (#[trigger] items[i]).0 == handle
}

/// `items` holds each entity for which `pick` gives a value, once, with that value.
pub open spec fn lists<T>(items: Seq<(u64, T)>, m: Model, pick: spec_fn(Attributes) -> Option<T>) -> bool {
    &&& forall|i: int|
        0 <= i < items.len() ==> m.dom().contains((#[trigger] items[i]).0) && pick(m[items[i].0])
            == Some(items[i].1)
    &&& forall|i: int, j: int|
        0 <= i < j < items.len() ==> (#[trigger] items[i]).0 != (#[trigger] items[j]).0
    &&& forall|h: u64| #[trigger]
        m.dom().contains(h) && pick(m[h]).is_some() ==> listed(items, items.len() as int, h)
}

/// Among the first `n + 1` items are listed those among the first `n`, and the next.
pub proof fn lemma_listed_next<T>(items: Seq<(u64, T)>, n: int)
    requires
        0 <= n < items.len(),
    ensures
        forall|h: u64| #[trigger]
            listed(items, n + 1, h) <==> (listed(items, n, h) || h == items[n].0),
{
    assert forall|h: u64| #[trigger] listed(items, n + 1, h) implies (listed(items, n, h) || h
        == items[n].0) by {
        let j = choose|j: int| 0 <= j < n + 1 && (#[trigger] items[j]).0 == h;
        if j < n {
            assert(listed(items, n, h));
        }
    }
    assert forall|h: u64| (listed(items, n, h) || h == items[n].0) implies #[trigger] listed(
        items,
        n + 1,
        h,
    ) by {
        if listed(items, n, h) {
            let j = choose|j: int| 0 <= j < n && (#[trigger] items[j]).0 == h;
            assert(items[j].0 == h);
        } else {
            assert(items[n].0 == h);
        }
    }
}

/// The count of an entity tagged as frame counter.
pub open spec fn frame_count_of(a: Attributes) -> Option<u64> {
    if a.frame_counter {
        a.counter
    } else {
        None
    }
}

/// The position of an entity tagged as falling enemy.
pub open spec fn enemy_position_of(a: Attributes) -> Option<(u16, u16)> {
    if a.enemy {
        a.position
    } else {
        None
    }
}

/// Position and speed of an entity tagged as falling enemy that carries both.
pub open spec fn enemy_motion_of(a: Attributes) -> Option<((u16, u16), u16)> {
    if a.enemy && a.position.is_some() && a.speed.is_some() {
        Some((a.position.unwrap(), a.speed.unwrap()))
    } else {
        None
    }
}

/// Fill, position and size of an entity that carries all three.
pub open spec fn rectangle_of(a: Attributes) -> Option<(Colour, (u16, u16), (u16, u16))> {
    if a.fill.is_some() && a.position.is_some() && a.size.is_some() {
        Some((a.fill.unwrap(), a.position.unwrap(), a.size.unwrap()))
    } else {
        None
    }
}

/// Style and pixel position of an entity that carries both and a text.
pub open spec fn label_of(a: Attributes) -> Option<((u16, Colour), (u16, u16))> {
    if a.text_style.is_some() && a.text.is_some() && a.text_position.is_some() {
        Some((a.text_style.unwrap(), a.text_position.unwrap()))
    } else {
        None
    }
}

/// The model of a world without entities.
pub open spec fn no_entities() -> Model {
    Map::empty()
}

/// `hecs::World::new`: a world without entities.
#[verifier::external_body]
pub(crate) fn new_world() -> (world: World)
    ensures
        entities(world) == no_entities(),
{
    World::new()
}

/// `hecs::World::spawn` with a frame-counter tag and a counter: one new
/// entity with exactly these, under a handle that no live entity had.
#[verifier::external_body]
pub(crate) fn spawn_frame_counter(world: &mut World, value: u64) -> (handle: u64)
    ensures
        created(entities(*old(world)), entities(*final(world)), handle, frame_counter_entity(value)),
{
    world.spawn((FrameCounter, Counter(value))).to_bits().get()
}

/// `hecs::World::spawn` with a score-counter tag, a counter and the three
/// text attributes: one new entity with exactly these.
#[verifier::external_body]
pub(crate) fn spawn_score_counter(
    world: &mut World,
    value: u64,
    text: String,
    at: (u16, u16),
    style: (u16, Colour),
) -> (handle: u64)
    ensures
        created(
            entities(*old(world)),
            entities(*final(world)),
            handle,
            score_counter_entity(value, text@, at, style),
        ),
{
    let bundle = (
        ScoreCounter,
        Counter(value),
        TextContent(text),
        TextPosition(at.0, at.1),
        TextRender(style.0, style.1),
    );
    world.spawn(bundle).to_bits().get()
}

/// `hecs::World::spawn` with a ship tag, a fill, a position and a size: one
/// new entity with exactly these.
#[verifier::external_body]
pub(crate) fn spawn_ship(world: &mut World, fill: Colour, at: (u16, u16), size: (u16, u16)) -> (handle:
    u64)
    ensures
        created(entities(*old(world)), entities(*final(world)), handle, ship_entity(fill, at, size)),
{
    let bundle = (SpaceShip, CellRender(fill), CellPosition(at.0, at.1), CellSize(size.0, size.1));
    world.spawn(bundle).to_bits().get()
}

/// `hecs::World::spawn` with a factory tag and a counter: one new entity with
/// exactly these.
#[verifier::external_body]
pub(crate) fn spawn_factory(world: &mut World, countdown: u64) -> (handle: u64)
    ensures
        created(entities(*old(world)), entities(*final(world)), handle, factory_entity(countdown)),
{
    world.spawn((EnemyFactory, Counter(countdown))).to_bits().get()
}

/// `hecs::World::spawn` with a falling-enemy tag, a fill, a position, a size
/// and a speed: one new entity with exactly these.
#[verifier::external_body]
pub(crate) fn spawn_enemy(
    world: &mut World,
    fill: Colour,
    at: (u16, u16),
    size: (u16, u16),
    speed: u16,
) -> (handle: u64)
    ensures
        created(
            entities(*old(world)),
            entities(*final(world)),
            handle,
            enemy_entity(fill, at, size, speed),
        ),
{
    let bundle = (
        FallingEnemy,
        CellRender(fill),
        CellPosition(at.0, at.1),
        CellSize(size.0, size.1),
        Speed(speed),
    );
    world.spawn(bundle).to_bits().get()
}

/// `hecs::World::despawn`: removes the entity and all its attributes; fails,
/// and changes nothing, where no live entity has the handle.
#[verifier::external_body]
pub(crate) fn despawn(world: &mut World, handle: u64) -> (outcome: Result<(), StoreError>)
    ensures
        entities(*old(world)).dom().contains(handle) ==> outcome.is_ok() && entities(*final(world))
            == entities(*old(world)).remove(handle),
        !entities(*old(world)).dom().contains(handle) ==> outcome == failed(StoreError::UnknownHandle)
            && entities(*final(world)) == entities(*old(world)),
{
    let entity = match Entity::from_bits(handle) {
        Some(entity) => entity,
        None => return Err(StoreError::UnknownHandle),
    };
    match world.despawn(entity) {
        Ok(()) => Ok(()),
        Err(_) => Err(StoreError::UnknownHandle),
    }
}

/// `hecs::World::query_one_mut` for a counter: its value, and the world as it was.
#[verifier::external_body]
pub(crate) fn get_counter(world: &mut World, handle: u64) -> (value: Result<u64, StoreError>)
    ensures
        entities(*final(world)) == entities(*old(world)),
        value == lookup(entities(*old(world)), handle, |a: Attributes| a.counter),
{
    let entity = match Entity::from_bits(handle) {
        Some(entity) => entity,
        None => return Err(StoreError::UnknownHandle),
    };
    match world.query_one_mut::<&Counter>(entity) {
        Ok(counter) => Ok(counter.0),
        Err(QueryOneError::NoSuchEntity) => Err(StoreError::UnknownHandle),
        Err(QueryOneError::Unsatisfied) => Err(StoreError::MissingAttribute),
    }
}

/// `hecs::World::query_one_mut` for a counter, which is then overwritten:
/// only that counter changes; on failure nothing does.
#[verifier::external_body]
pub(crate) fn set_counter(world: &mut World, handle: u64, value: u64) -> (outcome: Result<
    (),
    StoreError,
>)
    ensures
        updated(
            entities(*old(world)),
            entities(*final(world)),
            handle,
            lookup(entities(*old(world)), handle, |a: Attributes| a.counter),
            (Attributes { counter: Some(value), ..entities(*old(world))[handle] }),
            outcome,
        ),
{
    let entity = match Entity::from_bits(handle) {
        Some(entity) => entity,
        None => return Err(StoreError::UnknownHandle),
    };
    match world.query_one_mut::<&mut Counter>(entity) {
        Ok(counter) => {
            counter.0 = value;
            Ok(())
        },
        Err(QueryOneError::NoSuchEntity) => Err(StoreError::UnknownHandle),
        Err(QueryOneError::Unsatisfied) => Err(StoreError::MissingAttribute),
    }
}

/// `hecs::World::query_one_mut` for a position: column and row, and the
/// world as it was.
#[verifier::external_body]
pub(crate) fn get_position(world: &mut World, handle: u64) -> (value: Result<(u16, u16), StoreError>)
    ensures
        entities(*final(world)) == entities(*old(world)),
        value == lookup(entities(*old(world)), handle, |a: Attributes| a.position),
{
    let entity = match Entity::from_bits(handle) {
        Some(entity) => entity,
        None => return Err(StoreError::UnknownHandle),
    };
    match world.query_one_mut::<&CellPosition>(entity) {
        Ok(position) => Ok((position.0, position.1)),
        Err(QueryOneError::NoSuchEntity) => Err(StoreError::UnknownHandle),
        Err(QueryOneError::Unsatisfied) => Err(StoreError::MissingAttribute),
    }
}

/// `hecs::World::query_one_mut` for a position, which is then overwritten:
/// only that position changes; on failure nothing does.
#[verifier::external_body]
pub(crate) fn set_position(world: &mut World, handle: u64, at: (u16, u16)) -> (outcome: Result<
    (),
    StoreError,
>)
    ensures
        updated(
            entities(*old(world)),
            entities(*final(world)),
            handle,
            lookup(entities(*old(world)), handle, |a: Attributes| a.position),
            (Attributes { position: Some(at), ..entities(*old(world))[handle] }),
            outcome,
        ),
{
    let entity = match Entity::from_bits(handle) {
        Some(entity) => entity,
        None => return Err(StoreError::UnknownHandle),
    };
    match world.query_one_mut::<&mut CellPosition>(entity) {
        Ok(position) => {
            *position = CellPosition(at.0, at.1);
            Ok(())
        },
        Err(QueryOneError::NoSuchEntity) => Err(StoreError::UnknownHandle),
        Err(QueryOneError::Unsatisfied) => Err(StoreError::MissingAttribute),
    }
}

/// `hecs::World::query_one_mut` for a text: a copy of it, and the world as it was.
#[verifier::external_body]
pub(crate) fn get_text(world: &mut World, handle: u64) -> (value: Result<String, StoreError>)
    ensures
        entities(*final(world)) == entities(*old(world)),
        match lookup(entities(*old(world)), handle, |a: Attributes| a.text) {
            Ok(text) => value.is_ok() && value.unwrap()@ == text,
            Err(e) => value.is_err() && value.unwrap_err() == e,
        },
{
    let entity = match Entity::from_bits(handle) {
        Some(entity) => entity,
        None => return Err(StoreError::UnknownHandle),
    };
    match world.query_one_mut::<&TextContent>(entity) {
        Ok(text) => Ok(text.0.clone()),
        Err(QueryOneError::NoSuchEntity) => Err(StoreError::UnknownHandle),
        Err(QueryOneError::Unsatisfied) => Err(StoreError::MissingAttribute),
    }
}

/// `hecs::World::query_one_mut` for a text, which is then overwritten: only
/// that text changes; on failure nothing does.
#[verifier::external_body]
pub(crate) fn set_text(world: &mut World, handle: u64, text: String) -> (outcome: Result<
    (),
    StoreError,
>)
    ensures
        updated(
            entities(*old(world)),
            entities(*final(world)),
            handle,
            lookup(entities(*old(world)), handle, |a: Attributes| a.text),
            (Attributes { text: Some(text@), ..entities(*old(world))[handle] }),
            outcome,
        ),
{
    let entity = match Entity::from_bits(handle) {
        Some(entity) => entity,
        None => return Err(StoreError::UnknownHandle),
    };
    match world.query_one_mut::<&mut TextContent>(entity) {
        Ok(content) => {
            content.0 = text;
            Ok(())
        },
        Err(QueryOneError::NoSuchEntity) => Err(StoreError::UnknownHandle),
        Err(QueryOneError::Unsatisfied) => Err(StoreError::MissingAttribute),
    }
}

/// `hecs::World::query_mut` for tagged frame counters: each such entity once,
/// in an order that is not stated, with its count; the world as it was.
#[verifier::external_body]
pub(crate) fn frame_counters(world: &mut World) -> (items: Vec<(u64, u64)>)
    ensures
        entities(*final(world)) == entities(*old(world)),
        lists(items@, entities(*old(world)), |a: Attributes| frame_count_of(a)),
{
    world.query_mut::<(Entity, &FrameCounter, &Counter)>().into_iter().map(
        |(entity, _, counter)| (entity.to_bits().get(), counter.0),
    ).collect()
}

/// `hecs::World::query_mut` for falling enemies with a position: each such
/// entity once, in an order that is not stated; the world as it was.
#[verifier::external_body]
pub(crate) fn enemy_positions(world: &mut World) -> (items: Vec<(u64, (u16, u16))>)
    ensures
        entities(*final(world)) == entities(*old(world)),
        lists(items@, entities(*old(world)), |a: Attributes| enemy_position_of(a)),
{
    world.query_mut::<(Entity, &FallingEnemy, &CellPosition)>().into_iter().map(
        |(entity, _, position)| (entity.to_bits().get(), (position.0, position.1)),
    ).collect()
}

/// `hecs::World::query_mut` for falling enemies with a position and a speed:
/// each such entity once, in an order that is not stated; the world as it was.
#[verifier::external_body]
pub(crate) fn enemy_motions(world: &mut World) -> (items: Vec<(u64, ((u16, u16), u16))>)
    ensures
        entities(*final(world)) == entities(*old(world)),
        lists(items@, entities(*old(world)), |a: Attributes| enemy_motion_of(a)),
{
    world.query_mut::<(Entity, &FallingEnemy, &CellPosition, &Speed)>().into_iter().map(
        |(entity, _, position, speed)| (entity.to_bits().get(), ((position.0, position.1), speed.0)),
    ).collect()
}

/// `hecs::World::query_mut` for entities with a fill, a position and a size:
/// each such entity once, in an order that is not stated; the world as it was.
#[verifier::external_body]
pub(crate) fn rectangles(world: &mut World) -> (items: Vec<(u64, (Colour, (u16, u16), (u16, u16)))>)
    ensures
        entities(*final(world)) == entities(*old(world)),
        lists(items@, entities(*old(world)), |a: Attributes| rectangle_of(a)),
{
    world.query_mut::<(Entity, &CellRender, &CellPosition, &CellSize)>().into_iter().map(
        |(entity, fill, at, size)| (entity.to_bits().get(), (fill.0, (at.0, at.1), (size.0, size.1))),
    ).collect()
}

/// `hecs::World::query_mut` for entities with a text style, a text and a text
/// position: each such entity once, in an order that is not stated, with its
/// style and position; the world as it was.
#[verifier::external_body]
pub(crate) fn labels(world: &mut World) -> (items: Vec<(u64, ((u16, Colour), (u16, u16)))>)
    ensures
        entities(*final(world)) == entities(*old(world)),
        lists(items@, entities(*old(world)), |a: Attributes| label_of(a)),
{
    world.query_mut::<(Entity, &TextRender, &TextContent, &TextPosition)>().into_iter().map(
        |(entity, style, _, at)| (entity.to_bits().get(), ((style.0, style.1), (at.0, at.1))),
    ).collect()
}

/// Removes an entity and all its attributes; fails, and changes nothing,
/// where no live entity has the handle.
pub fn destroy(world: &mut World, handle: u64) -> (outcome: Result<(), StoreError>)
    ensures
        entities(*old(world)).dom().contains(handle) ==> outcome.is_ok() && entities(*final(world))
            == entities(*old(world)).remove(handle),
        !entities(*old(world)).dom().contains(handle) ==> outcome == failed(StoreError::UnknownHandle)
            && entities(*final(world)) == entities(*old(world)),
{
    despawn(world, handle)
}

/// The counter of an entity; fails where no live entity has the handle, or
/// where the entity has no counter.
pub fn counter_of(world: &mut World, handle: u64) -> (value: Result<u64, StoreError>)
    ensures
        entities(*final(world)) == entities(*old(world)),
        value == lookup(entities(*old(world)), handle, |a: Attributes| a.counter),
{
    get_counter(world, handle)
}

/// Column and row of an entity; fails where no live entity has the handle,
/// or where the entity has no position.
pub fn position_of(world: &mut World, handle: u64) -> (value: Result<(u16, u16), StoreError>)
    ensures
        entities(*final(world)) == entities(*old(world)),
        value == lookup(entities(*old(world)), handle, |a: Attributes| a.position),
{
    get_position(world, handle)
}

} // verus!
