//! Rule resolution for a tile-based puzzle game: a spatial index of the
//! entities on a wrapping grid, the occupants of each entity's four adjacent
//! tiles, and the per-tick decision whether an entity moves, is blocked or is
//! pushed.

pub mod logibaba;
pub mod entity;
pub mod events;
pub mod grid;
pub mod level_map;
pub mod movement;
pub mod screen_renderer;
pub mod sprite_animation;
