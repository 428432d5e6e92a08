use std::collections::HashMap;
use std::collections::HashSet;
use vstd::arithmetic::div_mod::{lemma_fundamental_div_mod, lemma_fundamental_div_mod_converse};
use vstd::prelude::*;
use vstd::std_specs::hash::*;

use crate::entity::{snapshot, Entity, EntityModel};
use crate::logibaba::MovementDirection;

verus! {

/// Number of columns of the playing field.
pub const GRID_COLUMNS: i32 = 12;

/// Number of rows of the playing field.
pub const GRID_ROWS: i32 = 8;

/// A stored tile, (column, row), as a pair of mathematical integers.
pub open spec fn tile_of(tile: (i32, i32)) -> (int, int) {
    (tile.0 as int, tile.1 as int)
}

/// Division as the machine does it on signed integers: the quotient is
/// rounded toward zero.
pub open spec fn quotient_toward_zero(dividend: int, divisor: int) -> int {
    if dividend >= 0 {
        dividend / divisor
    } else {
        -((-dividend) / divisor)
    }
}

/// Whether `tile` lies on a grid of `size` = (columns, rows).
pub open spec fn on_grid(tile: (int, int), size: (int, int)) -> bool {
    0 <= tile.0 < size.0 && 0 <= tile.1 < size.1
}

/// Whether `tile` lies on the playing field.
pub open spec fn on_field(tile: (int, int)) -> bool {
    on_grid(tile, (GRID_COLUMNS as int, GRID_ROWS as int))
}

/// One coordinate brought back onto `0..size`: past the last cell it
/// re-enters at 0, before the first at the last.
pub open spec fn wrap_coordinate(value: int, size: int) -> int {
    if value > size - 1 {
        0
    } else if value < 0 {
        size - 1
    } else {
        value
    }
}

/// Whether a step from `tile` in any direction stays within `i32`.
pub open spec fn steppable(tile: (int, int)) -> bool {
    i32::MIN < tile.0 < i32::MAX && i32::MIN < tile.1 < i32::MAX
}

/// `tile` brought back onto the playing field.
pub open spec fn wrap_tile(tile: (int, int)) -> (int, int) {
    (wrap_coordinate(tile.0, GRID_COLUMNS as int), wrap_coordinate(tile.1, GRID_ROWS as int))
}

/// The tile one step from `tile` in `direction`, before any wrapping.
/// Rows grow downwards, columns to the right.
pub open spec fn step(tile: (int, int), direction: MovementDirection) -> (int, int) {
    match direction {
        MovementDirection::Up => (tile.0, tile.1 - 1),
        MovementDirection::Right => (tile.0 + 1, tile.1),
        MovementDirection::Down => (tile.0, tile.1 + 1),
        MovementDirection::Left => (tile.0 - 1, tile.1),
        MovementDirection::Idle => tile,
    }
}

/// The tile adjacent to `tile` on `side`, on a torus of `size` = (columns,
/// rows): there is no edge, the far side of the last column is the first.
pub open spec fn neighbor_tile(tile: (int, int), side: MovementDirection, size: (int, int)) -> (
    int,
    int,
) {
    match side {
        MovementDirection::Up => (tile.0, (tile.1 - 1 + size.1) % size.1),
        MovementDirection::Right => ((tile.0 + 1 + size.0) % size.0, tile.1),
        MovementDirection::Down => (tile.0, (tile.1 + 1 + size.1) % size.1),
        MovementDirection::Left => ((tile.0 - 1 + size.0) % size.0, tile.1),
        MovementDirection::Idle => tile,
    }
}

/// `value + delta` on a ring of `size` cells: the remainder is never
/// negative.
fn wrapped_sum(value: i32, delta: i32, size: i32) -> (wrapped: i32)
    requires
        size > 0,
    ensures
        wrapped == (value + delta + size) % (size as int),
{
    let sum: i64 = value as i64 + delta as i64 + size as i64;
    let modulus: i64 = size as i64;
    let remainder: i64 = sum % modulus;
    proof {
        if sum < 0 {
            let back = (-sum) % (modulus as int);
            let quotient = (-sum) / (modulus as int);
            lemma_fundamental_div_mod(-sum, modulus as int);
            if back == 0 {
                assert(sum == modulus * (-quotient) + 0) by (nonlinear_arith)
                    requires
                        -sum == modulus * quotient + back,
                        back == 0,
                ;
                lemma_fundamental_div_mod_converse(sum as int, modulus as int, -quotient, 0);
            } else {
                assert(sum == modulus * (-quotient - 1) + (modulus - back)) by (nonlinear_arith)
                    requires
                        -sum == modulus * quotient + back,
                ;
                lemma_fundamental_div_mod_converse(
                    sum as int,
                    modulus as int,
                    -quotient - 1,
                    modulus - back,
                );
            }
        }
    }
    if remainder < 0 {
        (remainder + modulus) as i32
    } else {
        remainder as i32
    }
}

/// The tile adjacent to `tile` on `side`, on a torus of `size` = (columns,
/// rows).
pub fn adjacent_tile(tile: (i32, i32), side: MovementDirection, size: (i32, i32)) -> (next: (
    i32,
    i32,
))
    requires
        size.0 > 0,
        size.1 > 0,
    ensures
        tile_of(next) == neighbor_tile(tile_of(tile), side, tile_of(size)),
{
    match side {
        MovementDirection::Up => (tile.0, wrapped_sum(tile.1, -1, size.1)),
        MovementDirection::Right => (wrapped_sum(tile.0, 1, size.0), tile.1),
        MovementDirection::Down => (tile.0, wrapped_sum(tile.1, 1, size.1)),
        MovementDirection::Left => (wrapped_sum(tile.0, -1, size.0), tile.1),
        MovementDirection::Idle => tile,
    }
}

/// On the playing field a wrapped step and the adjacent tile are the same
/// thing.
pub proof fn lemma_wrapped_step_is_neighbor(tile: (int, int), direction: MovementDirection)
    requires
        on_field(tile),
    ensures
        wrap_tile(step(tile, direction)) == neighbor_tile(
            tile,
            direction,
            (GRID_COLUMNS as int, GRID_ROWS as int),
        ),
        on_field(wrap_tile(step(tile, direction))),
{
}

/// An adjacent tile of a tile on the grid is on the grid.
pub proof fn lemma_neighbor_on_grid(tile: (int, int), side: MovementDirection, size: (int, int))
    requires
        on_grid(tile, size),
    ensures
        on_grid(neighbor_tile(tile, side, size), size),
{
    lemma_wrap_by_one(tile.0, size.0);
    lemma_wrap_by_one(tile.1, size.1);
}

/// Toroidal closure: from any tile of the grid, going to the adjacent tile
/// up, then right, then down, then left ends on the tile where it began.
pub proof fn lemma_neighbor_round_trip(tile: (int, int), size: (int, int))
    requires
        on_grid(tile, size),
    ensures
        neighbor_tile(
            neighbor_tile(
                neighbor_tile(
                    neighbor_tile(tile, MovementDirection::Up, size),
                    MovementDirection::Right,
                    size,
                ),
                MovementDirection::Down,
                size,
            ),
            MovementDirection::Left,
            size,
        ) == tile,
{
    let up = neighbor_tile(tile, MovementDirection::Up, size);
    lemma_wrap_by_one(tile.1, size.1);
    let right = neighbor_tile(up, MovementDirection::Right, size);
    lemma_wrap_by_one(up.0, size.0);
    let down = neighbor_tile(right, MovementDirection::Down, size);
    lemma_wrap_by_one(right.1, size.1);
    lemma_wrap_by_one(down.0, size.0);
}

/// Opposite sides undo each other on the torus.
pub proof fn lemma_neighbor_opposite(tile: (int, int), side: MovementDirection, size: (int, int))
    requires
        on_grid(tile, size),
    ensures
        neighbor_tile(neighbor_tile(tile, side, size), side.opposite(), size) == tile,
{
    lemma_wrap_by_one(tile.0, size.0);
    lemma_wrap_by_one(tile.1, size.1);
    let next = neighbor_tile(tile, side, size);
    lemma_wrap_by_one(next.0, size.0);
    lemma_wrap_by_one(next.1, size.1);
}

/// What one step forth or back is modulo `size`, for a coordinate on the grid.
proof fn lemma_wrap_by_one(value: int, size: int)
    requires
        0 <= value < size,
    ensures
        (value + 1 + size) % size == (if value + 1 == size {
            0
        } else {
            value + 1
        }),
        (value - 1 + size) % size == (if value == 0 {
            size - 1
        } else {
            value - 1
        }),
{
    if value + 1 == size {
        assert((value + 1 + size) % size == 0) by (nonlinear_arith)
            requires
                value + 1 == size,
                size > 0,
        ;
    } else {
        assert((value + 1 + size) % size == value + 1) by (nonlinear_arith)
            requires
                0 <= value + 1 < size,
        ;
    }
    if value == 0 {
        assert((value - 1 + size) % size == size - 1) by (nonlinear_arith)
            requires
                value == 0,
                size > 0,
        ;
    } else {
        assert((value - 1 + size) % size == value - 1) by (nonlinear_arith)
            requires
                0 <= value - 1 < size,
        ;
    }
}

/// The indices below `count` of the entities that stand on `tile`.
pub open spec fn occupants_among(entities: Seq<EntityModel>, count: int, tile: (int, int)) -> Set<
    usize,
> {
    Set::new(
        |i: usize| i < count && i < entities.len() && tile_of(entities[i as int].tile) == tile,
    )
}

/// The index of the first `count` entities: every tile on which one of them
/// stands, with the set of those that stand there.
pub open spec fn grid_index_among(entities: Seq<EntityModel>, count: int) -> Map<
    (int, int),
    Set<usize>,
> {
    Map::new(
        |tile: (int, int)| exists|i: usize| occupants_among(entities, count, tile).contains(i),
        |tile: (int, int)| occupants_among(entities, count, tile),
    )
}

/// The indices of the entities that stand on `tile`.
pub open spec fn occupants(entities: Seq<EntityModel>, tile: (int, int)) -> Set<usize> {
    occupants_among(entities, entities.len() as int, tile)
}

/// The grid index of `entities`: it maps every occupied tile, and no other,
/// to the set of the indices of the entities on it.
pub open spec fn grid_index(entities: Seq<EntityModel>) -> Map<(int, int), Set<usize>> {
    grid_index_among(entities, entities.len() as int)
}

/// What `index` records for `tile`: its occupants, none where the tile is
/// absent.
pub open spec fn occupants_at(index: Map<(int, int), Set<usize>>, tile: (int, int)) -> Set<usize> {
    if index.contains_key(tile) {
        index[tile]
    } else {
        Set::empty()
    }
}

/// Completeness of the grid index: every entity is recorded on the tile
/// where it stands and on no other tile, and nothing is recorded but
/// entities.
pub proof fn lemma_index_complete(entities: Seq<EntityModel>)
    ensures
        forall|i: usize|
            i < entities.len() ==> grid_index(entities).contains_key(
                tile_of(#[trigger] entities[i as int].tile),
            ),
        forall|i: usize, tile: (int, int)|
            i < entities.len() && grid_index(entities).contains_key(tile) ==> (
            #[trigger] grid_index(entities)[tile].contains(i) <==> tile == tile_of(
                entities[i as int].tile,
            )),
        forall|i: usize, tile: (int, int)|
            grid_index(entities).contains_key(tile) && #[trigger] grid_index(
                entities,
            )[tile].contains(i) ==> i < entities.len(),
{
    assert forall|i: usize| i < entities.len() implies grid_index(entities).contains_key(
        tile_of(#[trigger] entities[i as int].tile),
    ) by {
        assert(occupants(entities, tile_of(entities[i as int].tile)).contains(i));
    }
}

/// The grid index reads nothing of the entities but how many they are and
/// where they stand.
pub proof fn lemma_index_reads_tiles(first: Seq<EntityModel>, second: Seq<EntityModel>)
    requires
        first.len() == second.len(),
        forall|i: int| 0 <= i < first.len() ==> first[i].tile == second[i].tile,
    ensures
        grid_index(first) == grid_index(second),
{
    let count = first.len() as int;
    assert forall|tile: (int, int)|
        occupants_among(first, count, tile) == occupants_among(second, count, tile) by {
        assert(occupants_among(first, count, tile) =~= occupants_among(second, count, tile));
    }
    assert(grid_index(first) =~~= grid_index(second));
}

/// The key under which a tile is stored: one integer for each pair of `i32`
/// coordinates, and different integers for different pairs.
pub open spec fn tile_key(tile: (int, int)) -> int {
    tile.0 * 0x1_0000_0000 + tile.1 + 0x8000_0000
}

/// Whether both coordinates of `tile` are `i32` values.
pub open spec fn storable(tile: (int, int)) -> bool {
    i32::MIN <= tile.0 <= i32::MAX && i32::MIN <= tile.1 <= i32::MAX
}

fn key_of(tile: (i32, i32)) -> (key: i64)
    ensures
        key == tile_key(tile_of(tile)),
{
    (tile.0 as i64) * 0x1_0000_0000 + ((tile.1 as i64) + 0x8000_0000)
}

/// The spatial index: which entities stand on which tile.
///
/// The model is a map from tile to the set of the indices of its occupants.
/// A tile without occupants is absent from it.
#[derive(Debug)]
pub struct EntityMap {
    cells: HashMap<i64, HashSet<usize>>,
}

impl View for EntityMap {
    type V = Map<(int, int), Set<usize>>;

    closed spec fn view(&self) -> Map<(int, int), Set<usize>> {
        Map::new(
            |tile: (int, int)| storable(tile) && self.cells@.contains_key(tile_key(tile) as i64),
            |tile: (int, int)| self.cells@[tile_key(tile) as i64]@,
        )
    }
}

impl EntityMap {
    /// An index without any tile.
    pub fn new() -> (index: EntityMap)
        ensures
            index@ == Map::<(int, int), Set<usize>>::empty(),
    {
        let index = EntityMap { cells: HashMap::new() };
        assert(index@ =~= Map::<(int, int), Set<usize>>::empty());
        index
    }

    /// Forgets every tile.
    pub fn clear(&mut self)
        ensures
            final(self)@ == Map::<(int, int), Set<usize>>::empty(),
    {
        self.cells.clear();
        assert(self@ =~= Map::<(int, int), Set<usize>>::empty());
    }

    /// Records `index` as an occupant of `tile`, beside those already there.
    pub fn insert(&mut self, tile: (i32, i32), index: usize)
        ensures
            final(self)@ == old(self)@.insert(
                tile_of(tile),
                occupants_at(old(self)@, tile_of(tile)).insert(index),
            ),
    {
        broadcast use group_hash_axioms;

        let key = key_of(tile);
        let cell = self.cells.entry(key).or_insert(HashSet::new());
        cell.insert(index);
        assert(self@ =~~= old(self)@.insert(
            tile_of(tile),
            occupants_at(old(self)@, tile_of(tile)).insert(index),
        ));
    }

    /// The occupants recorded for `tile`, if it has any.
    pub fn get(&self, tile: (i32, i32)) -> (cell: Option<&HashSet<usize>>)
        ensures
            match cell {
                Some(set) => self@.contains_key(tile_of(tile)) && set@ == self@[tile_of(tile)],
                None => !self@.contains_key(tile_of(tile)),
            },
    {
        broadcast use group_hash_axioms;

        let key = key_of(tile);
        self.cells.get(&key)
    }

    /// Whether `index` is recorded as an occupant of `tile`.
    pub fn contains(&self, tile: (i32, i32), index: usize) -> (found: bool)
        ensures
            found == occupants_at(self@, tile_of(tile)).contains(index),
    {
        broadcast use group_hash_axioms;

        match self.get(tile) {
            Some(set) => set.contains(&index),
            None => false,
        }
    }

    /// Makes `self` the grid index of `entities`, from scratch.
    pub fn rebuild(&mut self, entities: &Vec<Entity>)
        ensures
            final(self)@ == grid_index(snapshot(entities@)),
    {
        self.clear();
        let ghost models = snapshot(entities@);
        let mut i: usize = 0;
        assert(self@ =~~= grid_index_among(models, 0));
        while i < entities.len()
            invariant
                i <= entities.len(),
                models == snapshot(entities@),
                self@ == grid_index_among(models, i as int),
            decreases entities.len() - i,
        {
            let ghost before = self@;
            let tile = entities[i].tile;
            self.insert(tile, i);
            proof {
                let here = tile_of(tile);
                let next: int = i + 1;
                assert(occupants_among(models, next, here).contains(i));
                assert forall|t: (int, int)| #[trigger]
                    grid_index_among(models, next).contains_key(t) implies self@.contains_key(
                    t,
                ) by {
                    let j = choose|j: usize| occupants_among(models, next, t).contains(j);
                    if j < i {
                        assert(occupants_among(models, i as int, t).contains(j));
                    }
                }
                assert forall|t: (int, int)| #[trigger]
                    self@.contains_key(t) implies grid_index_among(models, next).contains_key(
                    t,
                ) by {
                    if t != here {
                        let j = choose|j: usize| occupants_among(models, i as int, t).contains(j);
                        assert(occupants_among(models, next, t).contains(j));
                    }
                }
                assert forall|t: (int, int)| #[trigger] self@.contains_key(t) implies self@[t]
                    =~= occupants_among(models, next, t) by {
                    if t == here {
                        if !before.contains_key(here) {
                            assert forall|j: usize|
                                !occupants_among(models, i as int, here).contains(j) by {}
                        }
                        assert(occupants_at(before, here) =~= occupants_among(
                            models,
                            i as int,
                            here,
                        ));
                    } else {
                        assert(before[t] =~= occupants_among(models, i as int, t));
                    }
                }
                assert(self@ =~~= grid_index_among(models, next));
            }
            i += 1;
        }
    }
}

} // verus!
