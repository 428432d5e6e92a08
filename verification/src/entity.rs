use std::collections::HashMap;
use std::collections::HashSet;
use vstd::prelude::*;
use vstd::std_specs::hash::*;

use crate::grid::{quotient_toward_zero, tile_of, wrap_tile};
use crate::logibaba::MovementDirection;

verus! {

/// The fixed vocabulary of tags an entity can carry.
#[derive(Hash, Eq, PartialEq, Debug, Clone, Copy, Structural)]
pub enum EntityState {
    You,
    Win,
    Push,
    Move,
    Stop,
    Active,
}

impl EntityState {
    /// The small integer under which a tag is stored.
    pub open spec fn code(self) -> u8 {
        match self {
            EntityState::You => 0,
            EntityState::Win => 1,
            EntityState::Push => 2,
            EntityState::Move => 3,
            EntityState::Stop => 4,
            EntityState::Active => 5,
        }
    }

    fn to_code(self) -> (c: u8)
        ensures
            c == self.code(),
    {
        match self {
            EntityState::You => 0,
            EntityState::Win => 1,
            EntityState::Push => 2,
            EntityState::Move => 3,
            EntityState::Stop => 4,
            EntityState::Active => 5,
        }
    }
}

/// The tags of one entity, each stored with a boolean.
///
/// The model is a map from tag to the stored boolean. A rule asks only
/// whether a tag is present (`contains_key`); the boolean is kept and handed
/// back, never consulted.
#[derive(Debug)]
pub struct StateFlags {
    flags: HashMap<u8, bool>,
}

impl View for StateFlags {
    type V = Map<EntityState, bool>;

    closed spec fn view(&self) -> Map<EntityState, bool> {
        Map::new(
            |state: EntityState| self.flags@.contains_key(state.code()),
            |state: EntityState| self.flags@[state.code()],
        )
    }
}

impl StateFlags {
    /// No tag at all.
    pub fn new() -> (flags: StateFlags)
        ensures
            flags@ == Map::<EntityState, bool>::empty(),
    {
        let flags = StateFlags { flags: HashMap::new() };
        assert(flags@ =~= Map::<EntityState, bool>::empty());
        flags
    }

    /// Whether `state` is present, whatever boolean is stored with it.
    pub fn contains_key(&self, state: EntityState) -> (present: bool)
        ensures
            present == self@.contains_key(state),
    {
        broadcast use group_hash_axioms;

        let code = state.to_code();
        self.flags.contains_key(&code)
    }

    /// The boolean stored with `state`, if the tag is present.
    pub fn get(&self, state: EntityState) -> (value: Option<bool>)
        ensures
            value == self@.get(state),
    {
        broadcast use group_hash_axioms;

        let code = state.to_code();
        match self.flags.get(&code) {
            Some(value) => Some(*value),
            None => None,
        }
    }

    /// Adds `state` with `value`, or replaces the boolean stored with it.
    /// Returns what was stored before.
    pub fn insert(&mut self, state: EntityState, value: bool) -> (previous: Option<bool>)
        ensures
            final(self)@ == old(self)@.insert(state, value),
            previous == old(self)@.get(state),
    {
        broadcast use group_hash_axioms;

        let code = state.to_code();
        let previous = self.flags.insert(code, value);
        assert(self@ =~= old(self)@.insert(state, value));
        previous
    }

    /// Takes `state` away. Returns what was stored with it.
    pub fn remove(&mut self, state: EntityState) -> (previous: Option<bool>)
        ensures
            final(self)@ == old(self)@.remove(state),
            previous == old(self)@.get(state),
    {
        broadcast use group_hash_axioms;

        let code = state.to_code();
        let previous = self.flags.remove(&code);
        assert(self@ =~= old(self)@.remove(state));
        previous
    }
}

impl Clone for StateFlags {
    fn clone(&self) -> (copy: StateFlags)
        ensures
            copy@ == self@,
    {
        let copy = StateFlags { flags: self.flags.clone() };
        assert(copy@ =~= self@);
        copy
    }
}

/// The occupants of the four tiles around one tile, as sets of entity indices.
/// `None` on a side says that nothing was recorded for the tile there.
#[verifier::ext_equal]
pub struct Adjacent {
    pub up: Option<Set<usize>>,
    pub right: Option<Set<usize>>,
    pub down: Option<Set<usize>>,
    pub left: Option<Set<usize>>,
}

impl Adjacent {
    /// The occupants on `side`; no side is `Idle`.
    pub open spec fn side(self, side: MovementDirection) -> Option<Set<usize>> {
        match side {
            MovementDirection::Up => self.up,
            MovementDirection::Right => self.right,
            MovementDirection::Down => self.down,
            MovementDirection::Left => self.left,
            MovementDirection::Idle => None,
        }
    }

    /// Nothing recorded on any side.
    pub open spec fn unknown() -> Adjacent {
        Adjacent { up: None, right: None, down: None, left: None }
    }
}

/// What a stored occupant set stands for.
pub open spec fn occupants_of(stored: Option<HashSet<usize>>) -> Option<Set<usize>> {
    match stored {
        Some(set) => Some(set@),
        None => None,
    }
}

/// A copy of `set` with the same elements.
pub fn copy_of(set: &HashSet<usize>) -> (copy: HashSet<usize>)
    ensures
        copy@ == set@,
{
    broadcast use group_hash_axioms;

    let mut copy: HashSet<usize> = HashSet::new();
    for index in it: set.iter()
        invariant
            forall|j: int| 0 <= j < it.index() ==> copy@.contains(#[trigger] it.seq().unref()[j]),
            forall|v: usize| copy@.contains(v) ==> set@.contains(v),
            it.seq().unref().to_set() == set@,
    {
        assert(it.seq().unref()[it.index()] == *index);
        assert(it.seq().unref().to_set().contains(*index));
        copy.insert(*index);
    }
    assert(copy@ =~= set@);
    copy
}

/// A copy of a stored occupant set.
pub fn copy_of_stored(stored: &Option<HashSet<usize>>) -> (copy: Option<HashSet<usize>>)
    ensures
        occupants_of(copy) == occupants_of(*stored),
{
    match stored {
        Some(set) => Some(copy_of(set)),
        None => None,
    }
}

/// The occupants of the four tiles around an entity, as they were when last
/// resolved. A cache: it is refreshed at the start of each tick.
#[derive(Debug)]
pub struct Neighbors {
    pub up: Option<HashSet<usize>>,
    pub right: Option<HashSet<usize>>,
    pub down: Option<HashSet<usize>>,
    pub left: Option<HashSet<usize>>,
}

impl View for Neighbors {
    type V = Adjacent;

    open spec fn view(&self) -> Adjacent {
        Adjacent {
            up: occupants_of(self.up),
            right: occupants_of(self.right),
            down: occupants_of(self.down),
            left: occupants_of(self.left),
        }
    }
}

impl Neighbors {
    /// Nothing recorded on any side.
    pub fn new() -> (neighbors: Neighbors)
        ensures
            neighbors@ == Adjacent::unknown(),
    {
        Neighbors { up: None, right: None, down: None, left: None }
    }
}

impl Clone for Neighbors {
    fn clone(&self) -> (copy: Neighbors)
        ensures
            copy@ == self@,
    {
        Neighbors {
            up: copy_of_stored(&self.up),
            right: copy_of_stored(&self.right),
            down: copy_of_stored(&self.down),
            left: copy_of_stored(&self.left),
        }
    }
}

/// A rectangle of a sprite sheet or of the window, in pixels.
#[derive(Debug, Clone, Copy, PartialEq, Eq, Structural)]
pub struct Frame {
    pub x: i32,
    pub y: i32,
    pub width: u32,
    pub height: u32,
}

/// The model of [`SpriteData`]: the same values, the sheet's path as a
/// sequence of characters.
#[verifier::ext_equal]
pub struct SpriteModel {
    pub sprite_sheet: Seq<char>,
    pub frame_width: u32,
    pub frame_height: u32,
    pub sprite_width: u32,
    pub sprite_height: u32,
    pub start_frame: Frame,
    pub frame_x: i32,
    pub frame_y: i32,
    pub num_frames: u32,
    pub current_frame: u32,
}

/// Whether `value` is an `i32` value.
pub open spec fn fits_i32(value: int) -> bool {
    i32::MIN <= value <= i32::MAX
}

fn fits(value: i128) -> (within: bool)
    ensures
        within == fits_i32(value as int),
{
    -0x8000_0000 <= value && value <= 0x7fff_ffff
}

impl SpriteModel {
    /// The animation frame after the current one, starting over after the
    /// last.
    pub open spec fn next_frame(self) -> int {
        (self.current_frame + 1) % (self.num_frames as int)
    }

    /// The distance on the sheet from one frame to the next: the frame's
    /// width and a gap of one pixel.
    pub open spec fn column_pitch(self) -> int {
        self.frame_width + 1
    }

    /// The distance on the sheet from one row of frames to the next.
    pub open spec fn row_pitch(self) -> int {
        self.frame_height + 1
    }

    /// The horizontal place on the sheet of the next frame, for a picture
    /// that starts `multiplier` frames to the right of the first. A row of
    /// the sheet holds four frames.
    pub open spec fn next_frame_x(self, multiplier: int) -> int {
        multiplier * self.column_pitch() + self.start_frame.x + self.column_pitch() * (
        self.next_frame() % 4)
    }

    /// The row of the sheet of the next frame, where it starts a row.
    pub open spec fn next_row(self) -> int {
        self.next_frame() / (self.num_frames as int / 4)
    }

    /// The vertical place on the sheet of the next frame: it changes only
    /// where the next frame starts a row.
    pub open spec fn next_frame_y(self) -> int {
        if self.next_frame() % 4 == 0 {
            self.start_frame.y + self.row_pitch() * self.next_row()
        } else {
            self.frame_y as int
        }
    }

    /// Whether the next frame can be worked out: there is a frame at all,
    /// a frame that starts a row has a row to start, and every intermediate
    /// result is an `i32` or `u32` value.
    pub open spec fn can_advance(self, multiplier: int) -> bool {
        &&& self.num_frames > 0
        &&& self.current_frame < u32::MAX
        &&& self.frame_width < i32::MAX
        &&& self.frame_height < i32::MAX
        &&& fits_i32(multiplier * self.column_pitch())
        &&& fits_i32(multiplier * self.column_pitch() + self.start_frame.x)
        &&& fits_i32(self.column_pitch() * (self.next_frame() % 4))
        &&& fits_i32(self.next_frame_x(multiplier))
        &&& self.next_frame() % 4 == 0 ==> {
            &&& self.num_frames >= 4
            &&& fits_i32(self.next_row())
            &&& fits_i32(self.row_pitch() * self.next_row())
            &&& fits_i32(self.start_frame.y + self.row_pitch() * self.next_row())
        }
    }

    /// The sprite showing its next frame.
    pub open spec fn advanced(self, multiplier: int) -> SpriteModel {
        SpriteModel {
            current_frame: self.next_frame() as u32,
            frame_x: self.next_frame_x(multiplier) as i32,
            frame_y: self.next_frame_y() as i32,
            ..self
        }
    }
}

/// Where an entity's picture comes from and which animation frame is shown.
#[derive(Debug)]
pub struct SpriteData {
    pub sprite_sheet: String,
    pub frame_width: u32,
    pub frame_height: u32,
    pub sprite_width: u32,
    pub sprite_height: u32,
    pub start_frame: Frame,
    pub frame_x: i32,
    pub frame_y: i32,
    pub num_frames: u32,
    pub current_frame: u32,
}

impl View for SpriteData {
    type V = SpriteModel;

    open spec fn view(&self) -> SpriteModel {
        SpriteModel {
            sprite_sheet: self.sprite_sheet@,
            frame_width: self.frame_width,
            frame_height: self.frame_height,
            sprite_width: self.sprite_width,
            sprite_height: self.sprite_height,
            start_frame: self.start_frame,
            frame_x: self.frame_x,
            frame_y: self.frame_y,
            num_frames: self.num_frames,
            current_frame: self.current_frame,
        }
    }
}

impl SpriteData {
    /// Whether the next frame can be worked out for a picture that starts
    /// `multiplier` frames to the right of the first on its sheet.
    pub fn can_advance(&self, multiplier: i32) -> (possible: bool)
        ensures
            possible == self@.can_advance(multiplier as int),
    {
        if self.num_frames == 0 || self.current_frame == u32::MAX || self.frame_width
            >= 0x7fff_ffff || self.frame_height >= 0x7fff_ffff {
            return false;
        }
        let next: u32 = (self.current_frame + 1) % self.num_frames;
        let column_pitch: i128 = self.frame_width as i128 + 1;
        let row_pitch: i128 = self.frame_height as i128 + 1;
        assert(-0x8000_0000_0000_0000 <= multiplier * column_pitch <= 0x8000_0000_0000_0000)
            by (nonlinear_arith)
            requires
                -0x8000_0000 <= multiplier <= 0x8000_0000,
                0 <= column_pitch <= 0x1_0000_0000,
        ;
        let offset: i128 = (multiplier as i128) * column_pitch;
        assert(0 <= column_pitch * (next % 4) <= 0x4_0000_0000) by (nonlinear_arith)
            requires
                0 <= next % 4 <= 3,
                0 <= column_pitch <= 0x1_0000_0000,
        ;
        let in_row: i128 = column_pitch * ((next % 4) as i128);
        let frame_x: i128 = offset + (self.start_frame.x as i128) + in_row;
        if !(fits(offset) && fits(offset + (self.start_frame.x as i128)) && fits(in_row) && fits(
            frame_x,
        )) {
            return false;
        }
        if next % 4 == 0 {
            if self.num_frames < 4 {
                return false;
            }
            let row: u32 = next / (self.num_frames / 4);
            assert(0 <= row_pitch * row <= 0x1_0000_0000_0000_0000) by (nonlinear_arith)
                requires
                    0 <= row <= 0x1_0000_0000,
                    0 <= row_pitch <= 0x1_0000_0000,
            ;
            let down: i128 = row_pitch * (row as i128);
            if !(fits(row as i128) && fits(down) && fits((self.start_frame.y as i128) + down)) {
                return false;
            }
        }
        true
    }

    /// Shows the next animation frame of a picture that starts `multiplier`
    /// frames to the right of the first on its sheet.
    pub fn advance(&mut self, multiplier: i32)
        requires
            old(self)@.can_advance(multiplier as int),
        ensures
            final(self)@ == old(self)@.advanced(multiplier as int),
    {
        self.current_frame = (self.current_frame + 1) % self.num_frames;
        let frame_width_plus_one: i32 = (self.frame_width as i32) + 1;
        let frame_height_plus_one: i32 = (self.frame_height as i32) + 1;
        let num_x_frames: u32 = 4;
        let num_y_frames: u32 = self.num_frames / num_x_frames;
        self.frame_x = multiplier * frame_width_plus_one + self.start_frame.x
            + frame_width_plus_one * ((self.current_frame % num_x_frames) as i32);
        if self.current_frame % num_x_frames == 0 {
            self.frame_y = self.start_frame.y + frame_height_plus_one * ((self.current_frame
                / num_y_frames) as i32);
        }
    }
}

impl Clone for SpriteData {
    fn clone(&self) -> (copy: SpriteData)
        ensures
            copy@ == self@,
    {
        SpriteData {
            sprite_sheet: self.sprite_sheet.clone(),
            frame_width: self.frame_width,
            frame_height: self.frame_height,
            sprite_width: self.sprite_width,
            sprite_height: self.sprite_height,
            start_frame: self.start_frame,
            frame_x: self.frame_x,
            frame_y: self.frame_y,
            num_frames: self.num_frames,
            current_frame: self.current_frame,
        }
    }
}

/// The model of an [`Entity`]: what the rules read and write, as plain
/// mathematical values.
#[verifier::ext_equal]
pub struct EntityModel {
    pub name: Seq<char>,
    pub states: Map<EntityState, bool>,
    pub position: (i32, i32),
    pub tile: (i32, i32),
    pub neighbors: Adjacent,
    pub draw_order: i32,
    pub sprite_data: SpriteModel,
    pub movement_direction: MovementDirection,
    pub facing: MovementDirection,
}

impl EntityModel {
    /// Whether the entity carries `state`.
    pub open spec fn has(self, state: EntityState) -> bool {
        self.states.contains_key(state)
    }

    /// The pixel position of the top-left corner of `tile` for tiles of
    /// `tile_width` by `tile_height` pixels.
    pub open spec fn position_of(tile: (int, int), tile_width: int, tile_height: int) -> (
        int,
        int,
    ) {
        (tile.0 * tile_width, tile.1 * tile_height)
    }

    /// Whether both coordinates of a pixel position are `i32` values.
    pub open spec fn position_fits(position: (int, int)) -> bool {
        i32::MIN <= position.0 <= i32::MAX && i32::MIN <= position.1 <= i32::MAX
    }

    /// An entity of this kind made at pixel position (`x_pos`, `y_pos`): it
    /// stands on the tile that holds that pixel, for tiles of `tile_size`.
    pub open spec fn created_at(
        self,
        x_pos: i32,
        y_pos: i32,
        tile_size: (u32, u32),
    ) -> EntityModel {
        EntityModel {
            position: (x_pos, y_pos),
            tile: (
                quotient_toward_zero(x_pos as int, tile_size.0 as int) as i32,
                quotient_toward_zero(y_pos as int, tile_size.1 as int) as i32,
            ),
            ..self
        }
    }

    /// The entity put on `tile`, brought back onto the playing field, with
    /// the pixel position that belongs to it.
    pub open spec fn placed_on(
        self,
        tile: (int, int),
        tile_width: int,
        tile_height: int,
    ) -> EntityModel {
        let wrapped = wrap_tile(tile);
        let position = Self::position_of(wrapped, tile_width, tile_height);
        EntityModel {
            tile: (wrapped.0 as i32, wrapped.1 as i32),
            position: (position.0 as i32, position.1 as i32),
            ..self
        }
    }
}

/// One simulated object of the level.
#[derive(Debug)]
pub struct Entity {
    /// A label for diagnostics; several entities may share it.
    pub name: String,
    pub states: StateFlags,
    /// Pixel position: always the tile times the tile's size.
    pub position: (i32, i32),
    /// (column, row) on the playing field.
    pub tile: (i32, i32),
    pub neighbors: Neighbors,
    /// Layering hint for drawing; no rule reads it.
    pub draw_order: i32,
    pub sprite_data: SpriteData,
    /// Where the entity means to go this tick.
    pub movement_direction: MovementDirection,
    /// The last direction asked for; presentation only.
    pub facing: MovementDirection,
}

impl View for Entity {
    type V = EntityModel;

    open spec fn view(&self) -> EntityModel {
        EntityModel {
            name: self.name@,
            states: self.states@,
            position: self.position,
            tile: self.tile,
            neighbors: self.neighbors@,
            draw_order: self.draw_order,
            sprite_data: self.sprite_data@,
            movement_direction: self.movement_direction,
            facing: self.facing,
        }
    }
}

impl Clone for Entity {
    fn clone(&self) -> (copy: Entity)
        ensures
            copy@ == self@,
    {
        Entity {
            name: self.name.clone(),
            states: self.states.clone(),
            position: self.position,
            tile: self.tile,
            neighbors: self.neighbors.clone(),
            draw_order: self.draw_order,
            sprite_data: self.sprite_data.clone(),
            movement_direction: self.movement_direction,
            facing: self.facing,
        }
    }
}

impl EntityModel {
    /// The part of the sprite sheet that shows the entity now.
    pub open spec fn sprite_rect(self) -> Frame {
        Frame {
            x: self.sprite_data.frame_x,
            y: self.sprite_data.start_frame.y,
            width: self.sprite_data.frame_width,
            height: self.sprite_data.frame_height,
        }
    }

    /// The part of the window that the entity covers.
    pub open spec fn world_rect(self) -> Frame {
        Frame {
            x: self.position.0,
            y: self.position.1,
            width: self.sprite_data.sprite_width,
            height: self.sprite_data.sprite_height,
        }
    }
}

impl Entity {
    /// The part of the sprite sheet to draw the entity from: the current
    /// frame's column in the row where the entity's frames start.
    pub fn sprite_rect(&self) -> (rect: Frame)
        ensures
            rect == self@.sprite_rect(),
    {
        Frame {
            x: self.sprite_data.frame_x,
            y: self.sprite_data.start_frame.y,
            width: self.sprite_data.frame_width,
            height: self.sprite_data.frame_height,
        }
    }

    /// The part of the window to draw the entity into: a tile's size at the
    /// entity's pixel position.
    pub fn world_rect(&self) -> (rect: Frame)
        ensures
            rect == self@.world_rect(),
    {
        Frame {
            x: self.position.0,
            y: self.position.1,
            width: self.sprite_data.sprite_width,
            height: self.sprite_data.sprite_height,
        }
    }

    /// Brings the tile back onto the playing field (a column past the last
    /// becomes the first, one before the first becomes the last; rows
    /// likewise) and sets the pixel position that belongs to it.
    pub fn tile_to_position(&mut self, tile_width: i32, tile_height: i32)
        requires
            EntityModel::position_fits(
                EntityModel::position_of(
                    wrap_tile(tile_of(old(self).tile)),
                    tile_width as int,
                    tile_height as int,
                ),
            ),
        ensures
            final(self)@ == old(self)@.placed_on(
                tile_of(old(self).tile),
                tile_width as int,
                tile_height as int,
            ),
            tile_of(final(self).tile) == wrap_tile(tile_of(old(self).tile)),
            tile_of(final(self).position) == EntityModel::position_of(
                tile_of(final(self).tile),
                tile_width as int,
                tile_height as int,
            ),
    {
        if self.tile.0 > 11 {
            self.tile.0 = 0;
        }
        if self.tile.0 < 0 {
            self.tile.0 = 11;
        }
        if self.tile.1 > 7 {
            self.tile.1 = 0;
        }
        if self.tile.1 < 0 {
            self.tile.1 = 7;
        }
        self.position = (self.tile.0 * tile_width, self.tile.1 * tile_height);
    }
}

/// The models of a list of entities, in order.
pub open spec fn snapshot(entities: Seq<Entity>) -> Seq<EntityModel> {
    Seq::new(entities.len(), |i: int| entities[i]@)
}

/// The sheet with the pictures of the characters.
pub open spec fn characters_sheet() -> Seq<char> {
    "./assets/spritesheets/characters.png"@
}

/// The sheet with the pictures of the objects.
pub open spec fn objects_sheet() -> Seq<char> {
    "./assets/spritesheets/objects.png"@
}

/// The sheet with the pictures of the words.
pub open spec fn words_sheet() -> Seq<char> {
    "./assets/spritesheets/text-entities.png"@
}

/// A freshly made entity of a kind: at the origin, going nowhere, facing
/// right, with one tag, its first frame showing. Frames are 24 by 24 pixels
/// on the sheet and are drawn the size of a tile.
pub open spec fn template(
    name: Seq<char>,
    state: EntityState,
    value: bool,
    draw_order: i32,
    sprite_sheet: Seq<char>,
    frame_x: i32,
    frame_y: i32,
    num_frames: u32,
    tile_size: (u32, u32),
) -> EntityModel {
    EntityModel {
        name,
        states: Map::<EntityState, bool>::empty().insert(state, value),
        position: (0, 0),
        tile: (0, 0),
        neighbors: Adjacent::unknown(),
        draw_order,
        sprite_data: SpriteModel {
            sprite_sheet,
            frame_width: 24,
            frame_height: 24,
            sprite_width: tile_size.0,
            sprite_height: tile_size.1,
            start_frame: Frame { x: frame_x, y: frame_y, width: 24, height: 24 },
            frame_x,
            frame_y,
            num_frames,
            current_frame: 0,
        },
        movement_direction: MovementDirection::Idle,
        facing: MovementDirection::Right,
    }
}

/// The kinds of entity a level can be made of, by the name under which a
/// level asks for them.
pub open spec fn predefined(key: Seq<char>, tile_size: (u32, u32)) -> Option<EntityModel> {
    if key == "Logi"@ {
        Some(
            template(
                "Logi"@,
                EntityState::You,
                true,
                3,
                characters_sheet(),
                576,
                1,
                12,
                tile_size,
            ),
        )
    } else if key == "Goal"@ {
        Some(
            template("Goal"@, EntityState::Win, true, 1, objects_sheet(), 101, 226, 1, tile_size),
        )
    } else if key == "LogiText"@ {
        Some(
            template(
                "Logitext"@,
                EntityState::Active,
                false,
                2,
                characters_sheet(),
                526,
                1,
                2,
                tile_size,
            ),
        )
    } else if key == "GoalText"@ {
        Some(
            template(
                "GoalText"@,
                EntityState::Active,
                false,
                2,
                objects_sheet(),
                51,
                226,
                2,
                tile_size,
            ),
        )
    } else if key == "Is"@ {
        Some(
            template("Is"@, EntityState::Active, false, 2, words_sheet(), 251, 76, 2, tile_size),
        )
    } else if key == "Push"@ {
        Some(
            template("Push"@, EntityState::Active, false, 2, words_sheet(), 26, 301, 2, tile_size),
        )
    } else if key == "Stop"@ {
        Some(
            template("Stop"@, EntityState::Active, false, 2, words_sheet(), 176, 301, 2, tile_size),
        )
    } else {
        None
    }
}

/// The first entry of `entries`, from `start` on, that is filed under `key`.
spec fn lookup(entries: Seq<(String, Entity)>, key: Seq<char>, start: int) -> Option<
    EntityModel,
>
    decreases entries.len() - start,
{
    if start < 0 || start >= entries.len() {
        None
    } else if entries[start].0@ == key {
        Some(entries[start].1@)
    } else {
        lookup(entries, key, start + 1)
    }
}

/// The stock of predefined entities from which the entities of a level are
/// made, for tiles of a given size in pixels.
///
/// Every repository holds the kinds that `predefined` lists for its tile
/// size, each under its name, and no other: `create_entity` rests on that.
pub struct EntityRepository {
    tile_width: u32,
    tile_height: u32,
    predefined_entities: Vec<(String, Entity)>,
}

impl EntityRepository {
    /// The size of a tile, (width, height), in pixels.
    pub closed spec fn tile_size(&self) -> (u32, u32) {
        (self.tile_width, self.tile_height)
    }

    /// The width of a tile in pixels.
    pub fn tile_width(&self) -> (width: u32)
        ensures
            width == self.tile_size().0,
    {
        self.tile_width
    }

    /// The height of a tile in pixels.
    pub fn tile_height(&self) -> (height: u32)
        ensures
            height == self.tile_size().1,
    {
        self.tile_height
    }

    /// The stock holds the predefined kinds, each under its name, and
    /// nothing else.
    #[verifier::type_invariant]
    spec fn stocked(&self) -> bool {
        forall|key: Seq<char>|
            #[trigger] lookup(self.predefined_entities@, key, 0) == predefined(
                key,
                (self.tile_width, self.tile_height),
            )
    }

    fn make(
        name: &str,
        state: EntityState,
        value: bool,
        draw_order: i32,
        sprite_sheet: &str,
        frame_x: i32,
        frame_y: i32,
        num_frames: u32,
        tile_width: u32,
        tile_height: u32,
    ) -> (entity: Entity)
        ensures
            entity@ == template(
                name@,
                state,
                value,
                draw_order,
                sprite_sheet@,
                frame_x,
                frame_y,
                num_frames,
                (tile_width, tile_height),
            ),
    {
        let mut states = StateFlags::new();
        states.insert(state, value);
        Entity {
            name: name.to_owned(),
            states,
            position: (0, 0),
            tile: (0, 0),
            neighbors: Neighbors::new(),
            draw_order,
            sprite_data: SpriteData {
                sprite_sheet: sprite_sheet.to_owned(),
                frame_width: 24,
                frame_height: 24,
                sprite_width: tile_width,
                sprite_height: tile_height,
                start_frame: Frame { x: frame_x, y: frame_y, width: 24, height: 24 },
                frame_x,
                frame_y,
                num_frames,
                current_frame: 0,
            },
            movement_direction: MovementDirection::Idle,
            facing: MovementDirection::Right,
        }
    }

    /// The stock for tiles of `tile_width` by `tile_height` pixels.
    pub fn new(tile_width: u32, tile_height: u32) -> (repository: EntityRepository)
        ensures
            repository.tile_size() == (tile_width, tile_height),
    {
        let mut predefined_entities: Vec<(String, Entity)> = Vec::new();
        let characters = "./assets/spritesheets/characters.png";
        let objects = "./assets/spritesheets/objects.png";
        let words = "./assets/spritesheets/text-entities.png";
        predefined_entities.push(
            (
                "Logi".to_owned(),
                Self::make(
                    "Logi",
                    EntityState::You,
                    true,
                    3,
                    characters,
                    576,
                    1,
                    12,
                    tile_width,
                    tile_height,
                ),
            ),
        );
        predefined_entities.push(
            (
                "Goal".to_owned(),
                Self::make(
                    "Goal",
                    EntityState::Win,
                    true,
                    1,
                    objects,
                    101,
                    226,
                    1,
                    tile_width,
                    tile_height,
                ),
            ),
        );
        predefined_entities.push(
            (
                "LogiText".to_owned(),
                Self::make(
                    "Logitext",
                    EntityState::Active,
                    false,
                    2,
                    characters,
                    526,
                    1,
                    2,
                    tile_width,
                    tile_height,
                ),
            ),
        );
        predefined_entities.push(
            (
                "GoalText".to_owned(),
                Self::make(
                    "GoalText",
                    EntityState::Active,
                    false,
                    2,
                    objects,
                    51,
                    226,
                    2,
                    tile_width,
                    tile_height,
                ),
            ),
        );
        predefined_entities.push(
            (
                "Is".to_owned(),
                Self::make(
                    "Is",
                    EntityState::Active,
                    false,
                    2,
                    words,
                    251,
                    76,
                    2,
                    tile_width,
                    tile_height,
                ),
            ),
        );
        predefined_entities.push(
            (
                "Push".to_owned(),
                Self::make(
                    "Push",
                    EntityState::Active,
                    false,
                    2,
                    words,
                    26,
                    301,
                    2,
                    tile_width,
                    tile_height,
                ),
            ),
        );
        predefined_entities.push(
            (
                "Stop".to_owned(),
                Self::make(
                    "Stop",
                    EntityState::Active,
                    false,
                    2,
                    words,
                    176,
                    301,
                    2,
                    tile_width,
                    tile_height,
                ),
            ),
        );
        proof {
            reveal_with_fuel(lookup, 8);
        }
        EntityRepository { tile_width, tile_height, predefined_entities }
    }

    /// A new entity of the kind filed under `name`, at pixel position
    /// (`x_pos`, `y_pos`), standing on the tile that holds that pixel;
    /// `None` where nothing is filed under `name`.
    pub fn create_entity(&self, name: &str, x_pos: i32, y_pos: i32) -> (created: Option<Entity>)
        requires
            predefined(name@, self.tile_size()) is Some ==> 0 < self.tile_size().0 <= i32::MAX
                && 0 < self.tile_size().1 <= i32::MAX,
        ensures
            match created {
                Some(entity) => predefined(name@, self.tile_size()) matches Some(model)
                    && entity@ == model.created_at(x_pos, y_pos, self.tile_size()),
                None => predefined(name@, self.tile_size()) is None,
            },
    {
        proof {
            use_type_invariant(self);
        }
        let ghost found = predefined(name@, self.tile_size());
        let key = name.to_owned();
        let mut i: usize = 0;
        while i < self.predefined_entities.len()
            invariant
                i <= self.predefined_entities.len(),
                key@ == name@,
                found == predefined(name@, self.tile_size()),
                found == lookup(self.predefined_entities@, name@, i as int),
                found is Some ==> 0 < self.tile_width <= i32::MAX && 0 < self.tile_height
                    <= i32::MAX,
            decreases self.predefined_entities.len() - i,
        {
            if self.predefined_entities[i].0 == key {
                let mut entity = self.predefined_entities[i].1.clone();
                entity.position = (x_pos, y_pos);
                entity.tile = (x_pos / (self.tile_width as i32), y_pos / (self.tile_height as i32));
                return Some(entity);
            }
            i += 1;
        }
        None
    }
}

} // verus!
