use std::collections::HashMap;
use std::collections::HashSet;
use vstd::prelude::*;
use vstd::std_specs::hash::*;

use crate::entity::{
    copy_of, fits_i32, occupants_of, snapshot, Entity, EntityModel, EntityState, Neighbors,
};
use crate::grid::{
    adjacent_tile, grid_index, lemma_index_reads_tiles, on_field, quotient_toward_zero, steppable,
    tile_of, wrap_tile, EntityMap, GRID_COLUMNS, GRID_ROWS,
};
use crate::logibaba::MovementDirection;
use crate::movement::{
    animated, can_animate, carries_stop, committed, heads, moved, moving_among, pushing_side,
    resolved_positions, stop_among, ticked, tiles_of, with_adjacency, with_adjacency_from,
    Resolution,
};

verus! {

/// The least time between two ticks, in milliseconds.
pub const TICK_INTERVAL_MS: u64 = 80;

/// Whether a tick is due at clock reading `now`, the last one having run at
/// `last`: at least the tick interval lies between them. A clock that went
/// backwards lets no time pass.
pub open spec fn tick_due(last: u64, now: u64) -> bool {
    now >= last && now - last >= TICK_INTERVAL_MS
}

/// Whether `offsets` are the places of the grid lines across `extent`
/// pixels cut into `cells` cells: 0, the size of a cell, twice that, and so
/// on, as long as they lie before `extent`.
pub open spec fn is_grid_lines(offsets: Seq<i32>, extent: int, cells: int) -> bool {
    let step = quotient_toward_zero(extent, cells);
    &&& forall|k: int| 0 <= k < offsets.len() ==> offsets[k] == k * step
    &&& offsets.len() > 0 ==> (offsets.len() - 1) * step < extent
    &&& offsets.len() * step >= extent
    &&& extent <= 0 ==> offsets.len() == 0
}

/// The places of the grid lines across `extent` pixels cut into `cells`
/// cells. An extent that is too small to give a cell a pixel has no grid.
pub fn grid_lines(extent: i32, cells: i32) -> (offsets: Vec<i32>)
    requires
        cells > 0,
        extent < 0 || extent >= cells,
    ensures
        is_grid_lines(offsets@, extent as int, cells as int),
{
    let mut offsets: Vec<i32> = Vec::new();
    if extent <= 0 {
        assert(offsets@.len() * quotient_toward_zero(extent as int, cells as int) >= extent)
            by (nonlinear_arith)
            requires
                offsets@.len() == 0,
                extent <= 0,
        ;
        return offsets;
    }
    let step: i64 = (extent / cells) as i64;
    assert(step >= 1) by (nonlinear_arith)
        requires
            extent >= cells,
            cells > 0,
            step == extent as int / cells as int,
    ;
    let mut place: i64 = 0;
    assert(offsets@.len() * step == 0) by (nonlinear_arith)
        requires
            offsets@.len() == 0,
    ;
    while place < extent as i64
        invariant
            1 <= step <= extent,
            step == quotient_toward_zero(extent as int, cells as int),
            0 <= place < extent + step,
            place == offsets.len() * step,
            forall|k: int| 0 <= k < offsets.len() ==> offsets[k] == k * step,
            offsets.len() > 0 ==> (offsets.len() - 1) * step < extent,
        decreases extent + step - place,
    {
        let ghost count = offsets.len() as int;
        offsets.push(place as i32);
        assert((count + 1) * step == place + step) by (nonlinear_arith)
            requires
                place == count * step,
        ;
        assert(((count + 1) - 1) * step == place) by (nonlinear_arith)
            requires
                place == count * step,
        ;
        place += step;
    }
    offsets
}

/// A copy of the occupants found for a tile, if any were found.
fn copy_of_found(found: Option<&HashSet<usize>>) -> (copy: Option<HashSet<usize>>)
    ensures
        match found {
            Some(set) => occupants_of(copy) == Some(set@),
            None => copy is None,
        },
{
    match found {
        Some(set) => Some(copy_of(set)),
        None => None,
    }
}

/// How many frames to the right of the first the pictures for going in
/// `direction` start on a sprite sheet.
fn frame_multiplier(direction: MovementDirection, facing: MovementDirection) -> (multiplier: i32)
    ensures
        multiplier == direction.sheet_offset(facing),
{
    match direction {
        MovementDirection::Up => 4,
        MovementDirection::Right => 0,
        MovementDirection::Down => 12,
        MovementDirection::Left => 8,
        MovementDirection::Idle => match facing {
            MovementDirection::Up => 4,
            MovementDirection::Right => 0,
            MovementDirection::Down => 12,
            MovementDirection::Left => 8,
            MovementDirection::Idle => 0,
        },
    }
}

/// The simulation side of the screen: the geometry of the window and of the
/// grid, the time of the last tick, and the steps of a tick.
#[derive(Debug)]
pub struct ScreenRenderer {
    pub frame_delay: u32,
    pub frame_ticks: u32,
    /// The clock reading, in milliseconds, at which the last tick ran.
    pub last_frame_ticks: u64,
    pub window_width: i32,
    pub window_height: i32,
    pub tile_width: i32,
    pub tile_height: i32,
    /// (columns, rows) of the torus on which adjacent tiles are looked up.
    pub grid_size: (i32, i32),
}

impl ScreenRenderer {
    /// Whether a `Stop` entity is among the occupants `directional_neighbor`:
    /// whether the way there is barred.
    pub fn check_can_move(
        &self,
        directional_neighbor: &Option<HashSet<usize>>,
        entities: &Vec<Entity>,
    ) -> (barred: bool)
        ensures
            barred == stop_among(occupants_of(*directional_neighbor), snapshot(entities@)),
    {
        broadcast use group_hash_axioms;

        match directional_neighbor {
            None => false,
            Some(set) => {
                for index in it: set.iter()
                    invariant
                        occupants_of(*directional_neighbor) == Some(set@),
                        it.seq().unref().to_set() == set@,
                        forall|j: int|
                            0 <= j < it.index() ==> !carries_stop(
                                snapshot(entities@),
                                #[trigger] it.seq().unref()[j],
                            ),
                {
                    assert(it.seq().unref()[it.index()] == *index);
                    assert(it.seq().unref().to_set().contains(*index));
                    if *index < entities.len() && entities[*index].states.contains_key(
                        EntityState::Stop,
                    ) {
                        assert(set@.contains(*index) && carries_stop(
                            snapshot(entities@),
                            *index,
                        ));
                        return true;
                    }
                }
                false
            },
        }
    }

    /// Whether one of the occupants `neighbors` means to go in `direction`.
    pub fn check_direction(
        &self,
        neighbors: &Option<HashSet<usize>>,
        direction: MovementDirection,
        entities: &Vec<Entity>,
    ) -> (found: bool)
        ensures
            found == moving_among(occupants_of(*neighbors), direction, snapshot(entities@)),
    {
        broadcast use group_hash_axioms;

        match neighbors {
            None => false,
            Some(set) => {
                for index in it: set.iter()
                    invariant
                        occupants_of(*neighbors) == Some(set@),
                        it.seq().unref().to_set() == set@,
                        forall|j: int|
                            0 <= j < it.index() ==> !heads(
                                snapshot(entities@),
                                #[trigger] it.seq().unref()[j],
                                direction,
                            ),
                {
                    assert(it.seq().unref()[it.index()] == *index);
                    assert(it.seq().unref().to_set().contains(*index));
                    if *index < entities.len() && entities[*index].movement_direction
                        == direction {
                        assert(set@.contains(*index) && heads(
                            snapshot(entities@),
                            *index,
                            direction,
                        ));
                        return true;
                    }
                }
                false
            },
        }
    }

    /// Whether something moves into `entity`'s tile, and from which side:
    /// from above going down, from the right going left, from the left going
    /// right, from below going up, looked for in that order.
    pub fn check_is_pushed(&self, entity: &Entity, entities: &Vec<Entity>) -> (pushed: (
        bool,
        Option<MovementDirection>,
    ))
        ensures
            pushed.1 == pushing_side(entity@.neighbors, snapshot(entities@)),
            pushed.0 == pushed.1.is_some(),
    {
        if self.check_direction(&entity.neighbors.up, MovementDirection::Down, entities) {
            (true, Some(MovementDirection::Up))
        } else if self.check_direction(
            &entity.neighbors.right,
            MovementDirection::Left,
            entities,
        ) {
            (true, Some(MovementDirection::Right))
        } else if self.check_direction(
            &entity.neighbors.left,
            MovementDirection::Right,
            entities,
        ) {
            (true, Some(MovementDirection::Left))
        } else if self.check_direction(&entity.neighbors.down, MovementDirection::Up, entities) {
            (true, Some(MovementDirection::Down))
        } else {
            (false, None)
        }
    }

    /// Decides for one entity whether it moves by its own intent, whether it
    /// is pushed, and where it stands after the tick. Reads `entities` as
    /// they are before the tick and changes nothing.
    pub fn resolve(&self, entity: &Entity, entities: &Vec<Entity>) -> (resolution: Resolution)
        requires
            steppable(tile_of(entity.tile)),
        ensures
            resolution.decides(entity@, snapshot(entities@)),
    {
        let mut can_move = false;
        if entity.states.contains_key(EntityState::You) || entity.states.contains_key(
            EntityState::Move,
        ) {
            can_move =
            match entity.movement_direction {
                MovementDirection::Up => !self.check_can_move(&entity.neighbors.up, entities),
                MovementDirection::Right => !self.check_can_move(
                    &entity.neighbors.right,
                    entities,
                ),
                MovementDirection::Down => !self.check_can_move(&entity.neighbors.down, entities),
                MovementDirection::Left => !self.check_can_move(&entity.neighbors.left, entities),
                MovementDirection::Idle => false,
            };
        }
        let mut pushed_from = None;
        if entity.states.contains_key(EntityState::Push) && !entity.states.contains_key(
            EntityState::Stop,
        ) {
            pushed_from = self.check_is_pushed(entity, entities).1;
        }
        let new_tile = if can_move {
            match entity.movement_direction {
                MovementDirection::Up => (entity.tile.0, entity.tile.1 - 1),
                MovementDirection::Right => (entity.tile.0 + 1, entity.tile.1),
                MovementDirection::Down => (entity.tile.0, entity.tile.1 + 1),
                MovementDirection::Left => (entity.tile.0 - 1, entity.tile.1),
                MovementDirection::Idle => entity.tile,
            }
        } else {
            match pushed_from {
                Some(MovementDirection::Up) => (entity.tile.0, entity.tile.1 + 1),
                Some(MovementDirection::Right) => (entity.tile.0 - 1, entity.tile.1),
                Some(MovementDirection::Down) => (entity.tile.0, entity.tile.1 - 1),
                Some(MovementDirection::Left) => (entity.tile.0 + 1, entity.tile.1),
                _ => entity.tile,
            }
        };
        Resolution { can_move, pushed_from, new_tile }
    }

    /// The new tile of every entity, by index, each decided from `entities`
    /// as they are before the tick. Nothing is written back here.
    pub fn update_positions(&self, entities: &Vec<Entity>) -> (new_positions: HashMap<
        usize,
        (i32, i32),
    >)
        requires
            forall|i: int|
                0 <= i < entities.len() ==> steppable(tile_of(#[trigger] entities[i].tile)),
        ensures
            tiles_of(new_positions@) == resolved_positions(snapshot(entities@)),
    {
        broadcast use group_hash_axioms;

        let mut new_positions: HashMap<usize, (i32, i32)> = HashMap::new();
        let mut i: usize = 0;
        while i < entities.len()
            invariant
                i <= entities.len(),
                forall|j: int|
                    0 <= j < entities.len() ==> steppable(tile_of(#[trigger] entities[j].tile)),
                forall|j: usize| new_positions@.contains_key(j) <==> j < i,
                forall|j: usize|
                    j < i ==> tile_of(#[trigger] new_positions@[j]) == resolved_positions(
                        snapshot(entities@),
                    )[j],
            decreases entities.len() - i,
        {
            let resolution = self.resolve(&entities[i], entities);
            new_positions.insert(i, resolution.new_tile);
            i += 1;
        }
        assert(tiles_of(new_positions@) =~= resolved_positions(snapshot(entities@)));
        new_positions
    }

    /// Writes the new tiles back: every entity named in `new_positions`
    /// is put on its new tile, brought back onto the playing field, and
    /// given the pixel position that belongs to it. Then `entity_map` is
    /// rebuilt from scratch over all entities.
    pub fn update_entity_map(
        &self,
        entities: &mut Vec<Entity>,
        entity_map: &mut EntityMap,
        new_positions: HashMap<usize, (i32, i32)>,
    )
        requires
            self.tiles_fit(),
        ensures
            snapshot(final(entities)@) == committed(
                snapshot(old(entities)@),
                tiles_of(new_positions@),
                self.tile_width as int,
                self.tile_height as int,
            ),
            final(entity_map)@ == grid_index(snapshot(final(entities)@)),
    {
        broadcast use group_hash_axioms;

        let ghost before = snapshot(entities@);
        let ghost target = committed(
            before,
            tiles_of(new_positions@),
            self.tile_width as int,
            self.tile_height as int,
        );
        let mut i: usize = 0;
        while i < entities.len()
            invariant
                i <= entities.len(),
                self.tiles_fit(),
                before.len() == entities.len(),
                target == committed(
                    before,
                    tiles_of(new_positions@),
                    self.tile_width as int,
                    self.tile_height as int,
                ),
                forall|j: int| 0 <= j < i ==> (#[trigger] entities@[j])@ == target[j],
                forall|j: int| i <= j < entities.len() ==> (#[trigger] entities@[j])@ == before[j],
            decreases entities.len() - i,
        {
            match new_positions.get(&i) {
                Some(new_tile) => {
                    let tile = *new_tile;
                    proof {
                        self.lemma_positions_fit(tile_of(tile));
                    }
                    entities[i].tile = tile;
                    entities[i].tile_to_position(self.tile_width, self.tile_height);
                    assert(entities@[i as int]@ =~~= target[i as int]);
                },
                None => {},
            }
            i += 1;
        }
        assert(snapshot(entities@) =~= target);
        entity_map.rebuild(entities);
    }

    /// Looks up, for every entity, the occupants of the four tiles around it
    /// in `entity_map`, on the torus of `grid_size`.
    pub fn update_neighbors(&self, entities: &mut Vec<Entity>, entity_map: &EntityMap)
        requires
            self.grid_size.0 > 0,
            self.grid_size.1 > 0,
        ensures
            snapshot(final(entities)@) == with_adjacency_from(
                snapshot(old(entities)@),
                entity_map@,
                tile_of(self.grid_size),
            ),
    {
        let ghost before = snapshot(entities@);
        let ghost target = with_adjacency_from(before, entity_map@, tile_of(self.grid_size));
        let mut i: usize = 0;
        while i < entities.len()
            invariant
                i <= entities.len(),
                self.grid_size.0 > 0,
                self.grid_size.1 > 0,
                before.len() == entities.len(),
                target == with_adjacency_from(before, entity_map@, tile_of(self.grid_size)),
                forall|j: int| 0 <= j < i ==> (#[trigger] entities@[j])@ == target[j],
                forall|j: int| i <= j < entities.len() ==> (#[trigger] entities@[j])@ == before[j],
            decreases entities.len() - i,
        {
            let tile = entities[i].tile;
            let up_tile = adjacent_tile(tile, MovementDirection::Up, self.grid_size);
            let right_tile = adjacent_tile(tile, MovementDirection::Right, self.grid_size);
            let down_tile = adjacent_tile(tile, MovementDirection::Down, self.grid_size);
            let left_tile = adjacent_tile(tile, MovementDirection::Left, self.grid_size);
            let neighbors = Neighbors {
                up: copy_of_found(entity_map.get(up_tile)),
                right: copy_of_found(entity_map.get(right_tile)),
                down: copy_of_found(entity_map.get(down_tile)),
                left: copy_of_found(entity_map.get(left_tile)),
            };
            entities[i].neighbors = neighbors;
            assert(entities@[i as int]@ =~~= target[i as int]);
            i += 1;
        }
        assert(snapshot(entities@) =~= target);
    }

    /// Whether a tick can run on `entities`: the torus has cells, no step
    /// leaves the range of a tile's coordinates, every pixel position and
    /// every next animation frame can be worked out.
    pub fn can_tick(&self, entities: &Vec<Entity>) -> (possible: bool)
        ensures
            possible == (self.wf() && can_animate(snapshot(entities@)) && forall|i: int|
                0 <= i < entities.len() ==> steppable(tile_of(#[trigger] entities[i].tile))),
    {
        if self.grid_size.0 <= 0 || self.grid_size.1 <= 0 {
            return false;
        }
        let widest: i64 = 11 * (self.tile_width as i64);
        let highest: i64 = 7 * (self.tile_height as i64);
        if widest < -0x8000_0000 || widest > 0x7fff_ffff || highest < -0x8000_0000 || highest
            > 0x7fff_ffff {
            return false;
        }
        let mut i: usize = 0;
        while i < entities.len()
            invariant
                i <= entities.len(),
                self.wf(),
                forall|j: int| 0 <= j < i ==> steppable(tile_of(#[trigger] entities[j].tile)),
                forall|j: int|
                    0 <= j < i && (#[trigger] snapshot(entities@)[j]).movement_direction
                        != MovementDirection::Idle ==> snapshot(
                        entities@,
                    )[j].sprite_data.can_advance(
                        snapshot(entities@)[j].movement_direction.sheet_offset(
                            snapshot(entities@)[j].facing,
                        ),
                    ),
            decreases entities.len() - i,
        {
            let entity = &entities[i];
            let tile = entity.tile;
            if tile.0 == i32::MIN || tile.0 == i32::MAX || tile.1 == i32::MIN || tile.1
                == i32::MAX {
                return false;
            }
            if entity.movement_direction != MovementDirection::Idle {
                let multiplier = frame_multiplier(entity.movement_direction, entity.facing);
                if !entity.sprite_data.can_advance(multiplier) {
                    assert(!snapshot(entities@)[i as int].sprite_data.can_advance(
                        snapshot(entities@)[i as int].movement_direction.sheet_offset(
                            snapshot(entities@)[i as int].facing,
                        ),
                    ));
                    return false;
                }
            }
            i += 1;
        }
        true
    }

    /// Shows the next animation frame of every entity that means to go
    /// somewhere.
    pub fn update_sprite_frames(&self, entities: &mut Vec<Entity>)
        requires
            can_animate(snapshot(old(entities)@)),
        ensures
            snapshot(final(entities)@) == animated(snapshot(old(entities)@)),
    {
        let ghost before = snapshot(entities@);
        let ghost target = animated(before);
        let mut i: usize = 0;
        while i < entities.len()
            invariant
                i <= entities.len(),
                before.len() == entities.len(),
                can_animate(before),
                target == animated(before),
                forall|j: int| 0 <= j < i ==> (#[trigger] entities@[j])@ == target[j],
                forall|j: int| i <= j < entities.len() ==> (#[trigger] entities@[j])@ == before[j],
            decreases entities.len() - i,
        {
            if entities[i].movement_direction != MovementDirection::Idle {
                let multiplier = frame_multiplier(
                    entities[i].movement_direction,
                    entities[i].facing,
                );
                assert(before[i as int].sprite_data.can_advance(multiplier as int));
                entities[i].sprite_data.advance(multiplier);
                assert(entities@[i as int]@ =~~= target[i as int]);
            }
            i += 1;
        }
        assert(snapshot(entities@) =~= target);
    }

    /// Whether the pixel position of every tile of the playing field is a
    /// pair of `i32` values, for tiles of `tile_width` by `tile_height`.
    pub open spec fn tiles_fit(self) -> bool {
        fits_i32((GRID_COLUMNS - 1) * self.tile_width) && fits_i32(
            (GRID_ROWS - 1) * self.tile_height,
        )
    }

    /// Whether `self` can run a tick: the torus has cells and every pixel
    /// position is representable.
    pub open spec fn wf(self) -> bool {
        self.grid_size.0 > 0 && self.grid_size.1 > 0 && self.tiles_fit()
    }

    proof fn lemma_positions_fit(self, tile: (int, int))
        requires
            self.tiles_fit(),
        ensures
            EntityModel::position_fits(
                EntityModel::position_of(
                    wrap_tile(tile),
                    self.tile_width as int,
                    self.tile_height as int,
                ),
            ),
    {
        let wrapped = wrap_tile(tile);
        let width = self.tile_width as int;
        let height = self.tile_height as int;
        assert(fits_i32(wrapped.0 * width)) by (nonlinear_arith)
            requires
                0 <= wrapped.0 <= 11,
                fits_i32(11 * width),
        ;
        assert(fits_i32(wrapped.1 * height)) by (nonlinear_arith)
            requires
                0 <= wrapped.1 <= 7,
                fits_i32(7 * height),
        ;
    }

    /// The places of the vertical and of the horizontal grid lines of the
    /// window.
    pub fn draw_grid(&self) -> (lines: (Vec<i32>, Vec<i32>))
        requires
            self.window_width < 0 || self.window_width >= GRID_COLUMNS,
            self.window_height < 0 || self.window_height >= GRID_ROWS,
        ensures
            is_grid_lines(lines.0@, self.window_width as int, GRID_COLUMNS as int),
            is_grid_lines(lines.1@, self.window_height as int, GRID_ROWS as int),
    {
        (grid_lines(self.window_width, GRID_COLUMNS), grid_lines(self.window_height, GRID_ROWS))
    }

    /// One tick. The index is rebuilt from where the entities stand, every
    /// entity's adjacency is taken from it, the new tile of every entity is
    /// decided on that state, and only then are the new tiles written back
    /// and the index rebuilt for them. Last, the sprites of the entities that
    /// mean to go somewhere show their next frame.
    pub fn update(&self, entities: &mut Vec<Entity>, entity_map: &mut EntityMap)
        requires
            self.wf(),
            forall|i: int|
                0 <= i < old(entities).len() ==> steppable(
                    tile_of(#[trigger] old(entities)[i].tile),
                ),
            can_animate(snapshot(old(entities)@)),
        ensures
            snapshot(final(entities)@) == ticked(
                snapshot(old(entities)@),
                tile_of(self.grid_size),
                self.tile_width as int,
                self.tile_height as int,
            ),
            final(entity_map)@ == grid_index(snapshot(final(entities)@)),
            forall|i: int|
                0 <= i < final(entities).len() ==> on_field(
                    tile_of(#[trigger] final(entities)[i].tile),
                ),
    {
        let ghost start = snapshot(entities@);
        entity_map.rebuild(entities);
        self.update_neighbors(entities, entity_map);
        let ghost before = snapshot(entities@);
        assert(before == with_adjacency(start, tile_of(self.grid_size)));
        assert(before.len() == start.len() && start.len() == entities.len());
        assert forall|i: int| 0 <= i < entities.len() implies steppable(
            tile_of(#[trigger] entities[i].tile),
        ) by {
            assert(before[i].tile == start[i].tile);
            assert(entities[i]@.tile == entities[i].tile);
        }
        let new_positions = self.update_positions(entities);
        self.update_entity_map(entities, entity_map, new_positions);
        let ghost after = snapshot(entities@);
        assert(after == moved(
            start,
            tile_of(self.grid_size),
            self.tile_width as int,
            self.tile_height as int,
        ));
        assert(can_animate(after)) by {
            assert forall|i: int|
                0 <= i < after.len() && (#[trigger] after[i]).movement_direction
                    != MovementDirection::Idle implies after[i].sprite_data.can_advance(
                after[i].movement_direction.sheet_offset(after[i].facing),
            ) by {
                assert(after[i].sprite_data == start[i].sprite_data);
                assert(after[i].movement_direction == start[i].movement_direction);
                assert(after[i].facing == start[i].facing);
            }
        }
        self.update_sprite_frames(entities);
        proof {
            let last = snapshot(entities@);
            lemma_index_reads_tiles(last, after);
            assert forall|i: int| 0 <= i < entities.len() implies on_field(
                tile_of(#[trigger] entities[i].tile),
            ) by {
                assert(last[i].tile == entities[i].tile);
            }
        }
    }

    /// Whether a tick is due at clock reading `now_ms`.
    pub fn tick_is_due(&self, now_ms: u64) -> (due: bool)
        ensures
            due == tick_due(self.last_frame_ticks, now_ms),
    {
        now_ms >= self.last_frame_ticks && now_ms - self.last_frame_ticks >= TICK_INTERVAL_MS
    }

    /// Runs a tick if one is due at clock reading `now_ms`, and tells whether
    /// it did. A tick that ran is remembered as the last one.
    pub fn draw(
        &mut self,
        entities: &mut Vec<Entity>,
        entity_map: &mut EntityMap,
        now_ms: u64,
    ) -> (ran: bool)
        requires
            tick_due(old(self).last_frame_ticks, now_ms) ==> {
                &&& old(self).wf()
                &&& can_animate(snapshot(old(entities)@))
                &&& forall|i: int|
                    0 <= i < old(entities).len() ==> steppable(
                        tile_of(#[trigger] old(entities)[i].tile),
                    )
            },
        ensures
            ran == tick_due(old(self).last_frame_ticks, now_ms),
            ran ==> {
                &&& snapshot(final(entities)@) == ticked(
                    snapshot(old(entities)@),
                    tile_of(old(self).grid_size),
                    old(self).tile_width as int,
                    old(self).tile_height as int,
                )
                &&& final(entity_map)@ == grid_index(snapshot(final(entities)@))
                &&& *final(self) == ScreenRenderer { last_frame_ticks: now_ms, ..*old(self) }
            },
            !ran ==> {
                &&& final(entities)@ == old(entities)@
                &&& final(entity_map)@ == old(entity_map)@
                &&& *final(self) == *old(self)
            },
    {
        if self.tick_is_due(now_ms) {
            self.update(entities, entity_map);
            self.last_frame_ticks = now_ms;
            true
        } else {
            false
        }
    }

    /// The geometry for a window of `window_width` by `window_height`
    /// pixels, cut into the tiles of the playing field; the last tick counts
    /// as having run at `now_ms`.
    pub fn new(window_width: i32, window_height: i32, now_ms: u64) -> (renderer: ScreenRenderer)
        ensures
            renderer.wf(),
            renderer.frame_delay == 6,
            renderer.frame_ticks == 0,
            renderer.last_frame_ticks == now_ms,
            renderer.window_width == window_width,
            renderer.window_height == window_height,
            renderer.tile_width == quotient_toward_zero(window_width as int, GRID_COLUMNS as int),
            renderer.tile_height == quotient_toward_zero(window_height as int, GRID_ROWS as int),
            renderer.grid_size == (GRID_COLUMNS, GRID_ROWS),
    {
        ScreenRenderer {
            frame_delay: 6,
            frame_ticks: 0,
            last_frame_ticks: now_ms,
            window_width,
            window_height,
            tile_width: window_width / GRID_COLUMNS,
            tile_height: window_height / GRID_ROWS,
            grid_size: (GRID_COLUMNS, GRID_ROWS),
        }
    }
}

} // verus!
