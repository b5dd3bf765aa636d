//! A small top-down 2D scene: one keyboard-driven player sprite kept inside
//! the window, and a few stationary enemies at random places.
//!
//! All lengths are integers in thousandths of a pixel ("units"), all times
//! are whole milliseconds, and scale factors are given in thousandths.

pub mod geometry;
pub mod confine;
pub mod movement;
pub mod scene;

pub use geometry::{Transform, WindowSize, UNITS_PER_PIXEL, PLAYER_WIDTH, PLAYER_HEIGHT, SCALE_ONE};
pub use confine::{clamp_axis, confine_transform, half_extent};
pub use movement::{Keys, PLAYER_SPEED, COORD_LIMIT, diagonal_leg, displacement, move_transform};
pub use scene::{Player, Enemy, Tag, Entity, Scene, Lookup, NUM_ENEMIES, SPRITE_SCALE, enemy_at};
