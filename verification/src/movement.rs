use vstd::prelude::*;

use crate::entity::{Adjacent, EntityModel, EntityState};
use crate::grid::{grid_index, neighbor_tile, on_field, step, tile_of, wrap_tile};
use crate::logibaba::MovementDirection;

verus! {

/// The occupants that `index` records around `tile` on a torus of `size`.
pub open spec fn adjacent(
    index: Map<(int, int), Set<usize>>,
    tile: (int, int),
    size: (int, int),
) -> Adjacent {
    Adjacent {
        up: index.get(neighbor_tile(tile, MovementDirection::Up, size)),
        right: index.get(neighbor_tile(tile, MovementDirection::Right, size)),
        down: index.get(neighbor_tile(tile, MovementDirection::Down, size)),
        left: index.get(neighbor_tile(tile, MovementDirection::Left, size)),
    }
}

/// `entities` with every entity's adjacency looked up in `index`.
pub open spec fn with_adjacency_from(
    entities: Seq<EntityModel>,
    index: Map<(int, int), Set<usize>>,
    size: (int, int),
) -> Seq<EntityModel> {
    Seq::new(
        entities.len(),
        |i: int|
            EntityModel {
                neighbors: adjacent(index, tile_of(entities[i].tile), size),
                ..entities[i]
            },
    )
}

/// `entities` with every entity's adjacency taken afresh from where the
/// entities stand now.
pub open spec fn with_adjacency(entities: Seq<EntityModel>, size: (int, int)) -> Seq<EntityModel> {
    with_adjacency_from(entities, grid_index(entities), size)
}

/// Whether `index` names an entity of the list that carries `Stop`. An index
/// beyond the list names nobody.
pub open spec fn carries_stop(entities: Seq<EntityModel>, index: usize) -> bool {
    index < entities.len() && entities[index as int].has(EntityState::Stop)
}

/// Whether `index` names an entity of the list that means to go in
/// `direction`. An index beyond the list names nobody.
pub open spec fn heads(
    entities: Seq<EntityModel>,
    index: usize,
    direction: MovementDirection,
) -> bool {
    index < entities.len() && entities[index as int].movement_direction == direction
}

/// Whether a member of `set` carries `Stop`.
pub open spec fn some_carries_stop(set: Set<usize>, entities: Seq<EntityModel>) -> bool {
    exists|i: usize| #[trigger] set.contains(i) && carries_stop(entities, i)
}

/// Whether a member of `set` means to go in `direction`.
pub open spec fn some_heads(
    set: Set<usize>,
    direction: MovementDirection,
    entities: Seq<EntityModel>,
) -> bool {
    exists|i: usize| #[trigger] set.contains(i) && heads(entities, i, direction)
}

/// Whether one of `occupants` carries `Stop`; nobody does where nothing is
/// recorded.
pub open spec fn stop_among(occupants: Option<Set<usize>>, entities: Seq<EntityModel>) -> bool {
    match occupants {
        Some(set) => some_carries_stop(set, entities),
        None => false,
    }
}

/// Whether one of `occupants` means to go in `direction`; nobody does where
/// nothing is recorded.
pub open spec fn moving_among(
    occupants: Option<Set<usize>>,
    direction: MovementDirection,
    entities: Seq<EntityModel>,
) -> bool {
    match occupants {
        Some(set) => some_heads(set, direction, entities),
        None => false,
    }
}

/// The side from which something moves into the tile in the middle of
/// `around`: an occupant above that goes down, one to the right that goes
/// left, one to the left that goes right, one below that goes up. Where
/// several sides qualify, the first of up, right, left, down is taken.
pub open spec fn pushing_side(around: Adjacent, entities: Seq<EntityModel>) -> Option<
    MovementDirection,
> {
    if moving_among(around.up, MovementDirection::Down, entities) {
        Some(MovementDirection::Up)
    } else if moving_among(around.right, MovementDirection::Left, entities) {
        Some(MovementDirection::Right)
    } else if moving_among(around.left, MovementDirection::Right, entities) {
        Some(MovementDirection::Left)
    } else if moving_among(around.down, MovementDirection::Up, entities) {
        Some(MovementDirection::Down)
    } else {
        None
    }
}

/// Whether `entity` may move by its own intent at all: it carries `You` or
/// `Move` and means to go somewhere.
pub open spec fn eligible(entity: EntityModel) -> bool {
    (entity.has(EntityState::You) || entity.has(EntityState::Move)) && entity.movement_direction
        != MovementDirection::Idle
}

/// Whether a `Stop` entity stands where `entity` means to go.
pub open spec fn blocked(entity: EntityModel, entities: Seq<EntityModel>) -> bool {
    stop_among(entity.neighbors.side(entity.movement_direction), entities)
}

/// Whether `entity` moves by its own intent this tick.
pub open spec fn moves_itself(entity: EntityModel, entities: Seq<EntityModel>) -> bool {
    eligible(entity) && !blocked(entity, entities)
}

/// The side from which `entity` is pushed, if it is: only an entity that
/// carries `Push` and not `Stop` can be.
pub open spec fn pushed_from(entity: EntityModel, entities: Seq<EntityModel>) -> Option<
    MovementDirection,
> {
    if entity.has(EntityState::Push) && !entity.has(EntityState::Stop) {
        pushing_side(entity.neighbors, entities)
    } else {
        None
    }
}

/// The tile on which `entity` stands after the tick, before it is brought
/// back onto the playing field. Its own move comes first; failing that, a
/// push carries it one tile away from the side it is pushed from; failing
/// both, it stays.
pub open spec fn resolved_tile(entity: EntityModel, entities: Seq<EntityModel>) -> (int, int) {
    if moves_itself(entity, entities) {
        step(tile_of(entity.tile), entity.movement_direction)
    } else {
        match pushed_from(entity, entities) {
            Some(side) => step(tile_of(entity.tile), side.opposite()),
            None => tile_of(entity.tile),
        }
    }
}

/// What is decided for one entity, from the state before the tick alone.
#[derive(Debug, Clone, Copy)]
pub struct Resolution {
    /// The entity moves by its own intent.
    pub can_move: bool,
    /// The side from which it is pushed, `None` if it is not.
    pub pushed_from: Option<MovementDirection>,
    /// Its tile after the tick, before it is brought back onto the field.
    pub new_tile: (i32, i32),
}

impl Resolution {
    /// Whether `self` is what the rules decide for `entity` among `entities`.
    pub open spec fn decides(self, entity: EntityModel, entities: Seq<EntityModel>) -> bool {
        &&& self.can_move == moves_itself(entity, entities)
        &&& self.pushed_from == pushed_from(entity, entities)
        &&& tile_of(self.new_tile) == resolved_tile(entity, entities)
    }
}

/// A collection of stored tiles by index, as mathematical tiles.
pub open spec fn tiles_of(positions: Map<usize, (i32, i32)>) -> Map<usize, (int, int)> {
    Map::new(|i: usize| positions.contains_key(i), |i: usize| tile_of(positions[i]))
}

/// The new tile of every entity, by index.
pub open spec fn resolved_positions(entities: Seq<EntityModel>) -> Map<usize, (int, int)> {
    Map::new(
        |i: usize| i < entities.len(),
        |i: usize| resolved_tile(entities[i as int], entities),
    )
}

/// The new tiles as they are collected when the entities are looked at one
/// after the other in `order`.
pub open spec fn resolve_in_order(entities: Seq<EntityModel>, order: Seq<usize>) -> Map<
    usize,
    (int, int),
>
    decreases order.len(),
{
    if order.len() == 0 {
        Map::empty()
    } else {
        resolve_in_order(entities, order.drop_last()).insert(
            order.last(),
            resolved_tile(entities[order.last() as int], entities),
        )
    }
}

/// Whether `order` names every one of `count` entities, and nothing else.
/// Every permutation of the indices below `count` does.
pub open spec fn visits_all(order: Seq<usize>, count: nat) -> bool {
    &&& forall|k: int| 0 <= k < order.len() ==> #[trigger] order[k] < count
    &&& forall|i: usize| i < count ==> #[trigger] order.contains(i)
}

/// Looking at the entities in `order` collects, for each entity named, the
/// tile that is decided for it from the state before the tick.
pub proof fn lemma_resolve_in_order(entities: Seq<EntityModel>, order: Seq<usize>)
    ensures
        forall|i: usize|
            resolve_in_order(entities, order).contains_key(i) <==> #[trigger] order.contains(i),
        forall|i: usize| #[trigger]
            order.contains(i) ==> resolve_in_order(entities, order)[i] == resolved_tile(
                entities[i as int],
                entities,
            ),
    decreases order.len(),
{
    if order.len() > 0 {
        let front = order.drop_last();
        let all = resolve_in_order(entities, order);
        lemma_resolve_in_order(entities, front);
        assert forall|i: usize| #[trigger] order.contains(i) implies all.contains_key(i) && all[i]
            == resolved_tile(entities[i as int], entities) by {
            let k = choose|k: int| 0 <= k < order.len() && order[k] == i;
            if k < order.len() - 1 {
                assert(front[k] == i);
                assert(front.contains(i));
            }
        }
        assert forall|i: usize| all.contains_key(i) implies #[trigger] order.contains(i) by {
            if i == order.last() {
                assert(order[order.len() - 1] == i);
            } else {
                assert(front.contains(i));
                let k = choose|k: int| 0 <= k < front.len() && front[k] == i;
                assert(order[k] == i);
            }
        }
    }
}

/// Looking at every entity, in whatever order, collects exactly the new
/// tile of each.
pub proof fn lemma_resolve_all(entities: Seq<EntityModel>, order: Seq<usize>)
    requires
        visits_all(order, entities.len()),
    ensures
        resolve_in_order(entities, order) == resolved_positions(entities),
{
    let collected = resolve_in_order(entities, order);
    lemma_resolve_in_order(entities, order);
    assert forall|i: usize| collected.contains_key(i) <==> i < entities.len() by {
        if order.contains(i) {
            let k = choose|k: int| 0 <= k < order.len() && order[k] == i;
        }
    }
    assert forall|i: usize| collected.contains_key(i) implies collected[i] == resolved_tile(
        entities[i as int],
        entities,
    ) by {
        assert(order.contains(i));
    }
    assert(collected =~= resolved_positions(entities));
}

/// Order independence: whatever the order in which the entities are looked
/// at, as long as each is looked at, the same new tiles are collected. All
/// decisions read the state before the tick, none reads a new tile.
pub proof fn lemma_order_independent(
    entities: Seq<EntityModel>,
    first: Seq<usize>,
    second: Seq<usize>,
)
    requires
        visits_all(first, entities.len()),
        visits_all(second, entities.len()),
    ensures
        resolve_in_order(entities, first) == resolve_in_order(entities, second),
{
    lemma_resolve_all(entities, first);
    lemma_resolve_all(entities, second);
}

/// Blocking: an entity that means to go where a `Stop` entity stands keeps
/// its tile, whatever tags it carries itself, unless it is pushed away.
pub proof fn lemma_blocked_stays(entity: EntityModel, entities: Seq<EntityModel>)
    requires
        entity.movement_direction != MovementDirection::Idle,
        stop_among(entity.neighbors.side(entity.movement_direction), entities),
        pushed_from(entity, entities) is None,
    ensures
        resolved_tile(entity, entities) == tile_of(entity.tile),
        on_field(tile_of(entity.tile)) ==> wrap_tile(resolved_tile(entity, entities)) == tile_of(
            entity.tile,
        ),
{
}

/// Push precedence: an entity that is pushed and does not move by its own
/// intent goes one tile away from the side it is pushed from; one that does
/// move by its own intent goes where it means to go, and not where the push
/// would carry it.
pub proof fn lemma_push_precedence(
    entity: EntityModel,
    entities: Seq<EntityModel>,
    side: MovementDirection,
)
    requires
        entity.has(EntityState::Push),
        !entity.has(EntityState::Stop),
        pushing_side(entity.neighbors, entities) == Some(side),
    ensures
        !moves_itself(entity, entities) ==> resolved_tile(entity, entities) == step(
            tile_of(entity.tile),
            side.opposite(),
        ),
        entity.movement_direction == MovementDirection::Idle ==> resolved_tile(entity, entities)
            == step(tile_of(entity.tile), side.opposite()),
        moves_itself(entity, entities) ==> resolved_tile(entity, entities) == step(
            tile_of(entity.tile),
            entity.movement_direction,
        ),
{
}

/// `entities` after the new tiles in `positions` are written back: an entity
/// named there stands on its new tile, brought back onto the playing field,
/// at the pixel position that belongs to it; any other is untouched.
pub open spec fn committed(
    entities: Seq<EntityModel>,
    positions: Map<usize, (int, int)>,
    tile_width: int,
    tile_height: int,
) -> Seq<EntityModel> {
    Seq::new(
        entities.len(),
        |i: int|
            if positions.contains_key(i as usize) {
                entities[i].placed_on(positions[i as usize], tile_width, tile_height)
            } else {
                entities[i]
            },
    )
}

/// Whether the sprite of every entity that means to go somewhere can show
/// its next frame.
pub open spec fn can_animate(entities: Seq<EntityModel>) -> bool {
    forall|i: int|
        0 <= i < entities.len() && (#[trigger] entities[i]).movement_direction
            != MovementDirection::Idle ==> entities[i].sprite_data.can_advance(
            entities[i].movement_direction.sheet_offset(entities[i].facing),
        )
}

/// `entities` with the sprite of every entity that means to go somewhere
/// showing its next frame.
pub open spec fn animated(entities: Seq<EntityModel>) -> Seq<EntityModel> {
    Seq::new(
        entities.len(),
        |i: int|
            if entities[i].movement_direction != MovementDirection::Idle {
                EntityModel {
                    sprite_data: entities[i].sprite_data.advanced(
                        entities[i].movement_direction.sheet_offset(entities[i].facing),
                    ),
                    ..entities[i]
                }
            } else {
                entities[i]
            },
    )
}

/// `entities` after their tiles for this tick are decided and written back.
/// Adjacency is taken from where the entities stand before the tick; every
/// decision is made on that state; only then are the new tiles written.
pub open spec fn moved(
    entities: Seq<EntityModel>,
    size: (int, int),
    tile_width: int,
    tile_height: int,
) -> Seq<EntityModel> {
    let before = with_adjacency(entities, size);
    committed(before, resolved_positions(before), tile_width, tile_height)
}

/// `entities` after one whole tick: moved, then animated.
pub open spec fn ticked(
    entities: Seq<EntityModel>,
    size: (int, int),
    tile_width: int,
    tile_height: int,
) -> Seq<EntityModel> {
    animated(moved(entities, size, tile_width, tile_height))
}

} // verus!
