use vstd::prelude::*;

verus! {

/// Units (thousandths of a pixel) in one pixel.
pub const UNITS_PER_PIXEL: i64 = 1000;

/// A scale factor of one, in thousandths.
pub const SCALE_ONE: u32 = 1000;

/// Nominal width of the player sprite, in pixels at scale one.
pub const PLAYER_WIDTH: i64 = 292;

/// Nominal height of the player sprite, in pixels at scale one.
pub const PLAYER_HEIGHT: i64 = 208;

/// Where an entity stands and how large it is drawn.
///
/// `x` and `y` are in units; `scale_x` and `scale_y` in thousandths.
#[derive(Clone, Copy, Debug, PartialEq, Eq)]
pub struct Transform {
    pub x: i64,
    pub y: i64,
    pub scale_x: u32,
    pub scale_y: u32,
}

/// The size of the window, in whole pixels.
#[derive(Clone, Copy, Debug, PartialEq, Eq)]
pub struct WindowSize {
    pub width: u32,
    pub height: u32,
}

impl WindowSize {
    /// The window width in units.
    pub open spec fn width_units(self) -> int {
        self.width * UNITS_PER_PIXEL
    }

    /// The window height in units.
    pub open spec fn height_units(self) -> int {
        self.height * UNITS_PER_PIXEL
    }
}

} // verus!
