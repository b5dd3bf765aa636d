use vstd::prelude::*;
use crate::geometry::{Transform, WindowSize, UNITS_PER_PIXEL, PLAYER_WIDTH, PLAYER_HEIGHT};

verus! {

/// Half of a sprite side of `size` pixels drawn at `scale` thousandths, in units.
pub open spec fn half_extent_spec(size: int, scale: int) -> int {
    size * scale / 2
}

/// Clamping one coordinate the way the confinement does it: first raised to
/// `lo`, then lowered to `hi`. Where `lo > hi` the second step wins.
pub open spec fn clamp_axis_spec(v: int, lo: int, hi: int) -> int {
    let raised = if v < lo { lo } else { v };
    if raised > hi { hi } else { raised }
}

/// Half of a side of `size` pixels drawn at `scale` thousandths, in units.
pub fn half_extent(size: i64, scale: u32) -> (r: i64)
    requires
        0 <= size <= 1_000_000,
    ensures
        r == half_extent_spec(size as int, scale as int),
        r >= 0,
{
    proof {
        assert(0 <= size * scale <= 1_000_000 * 0xffff_ffff) by (nonlinear_arith)
            requires 0 <= size <= 1_000_000, 0 <= scale <= 0xffff_ffff;
    }
    size * (scale as i64) / 2
}

/// Raises `v` to `lo` if below it, then lowers it to `hi` if above it.
pub fn clamp_axis(v: i64, lo: i64, hi: i64) -> (r: i64)
    ensures
        r == clamp_axis_spec(v as int, lo as int, hi as int),
{
    let mut r = v;
    if r < lo {
        r = lo;
    }
    if r > hi {
        r = hi;
    }
    r
}

/// The transform `t` moved so that a player sprite drawn with it lies inside
/// `window`, axis by axis.
pub open spec fn confined(t: Transform, window: WindowSize) -> Transform {
    let hw = half_extent_spec(PLAYER_WIDTH as int, t.scale_x as int);
    let hh = half_extent_spec(PLAYER_HEIGHT as int, t.scale_y as int);
    Transform {
        x: clamp_axis_spec(t.x as int, hw, window.width_units() - hw) as i64,
        y: clamp_axis_spec(t.y as int, hh, window.height_units() - hh) as i64,
        ..t
    }
}

/// Keeps a player sprite inside the window: each coordinate is clamped to
/// lie at least half the sprite's drawn extent from either edge.
pub fn confine_transform(t: Transform, window: WindowSize) -> (r: Transform)
    ensures
        r == confined(t, window),
{
    let hw = half_extent(PLAYER_WIDTH, t.scale_x);
    let hh = half_extent(PLAYER_HEIGHT, t.scale_y);
    let max_x = (window.width as i64) * UNITS_PER_PIXEL - hw;
    let max_y = (window.height as i64) * UNITS_PER_PIXEL - hh;
    Transform {
        x: clamp_axis(t.x, hw, max_x),
        y: clamp_axis(t.y, hh, max_y),
        ..t
    }
}

/// After confinement the player sprite lies inside the window on every
/// axis along which the window is at least as large as the drawn sprite:
/// each coordinate is at least half the extent from either edge.
pub proof fn lemma_confined_inside(t: Transform, window: WindowSize)
    ensures
        ({
            let hw = half_extent_spec(PLAYER_WIDTH as int, t.scale_x as int);
            let r = confined(t, window);
            2 * hw <= window.width_units() ==> hw <= r.x <= window.width_units() - hw
        }),
        ({
            let hh = half_extent_spec(PLAYER_HEIGHT as int, t.scale_y as int);
            let r = confined(t, window);
            2 * hh <= window.height_units() ==> hh <= r.y <= window.height_units() - hh
        }),
{
    lemma_confined_fits(t, window);
}

/// Along an axis where the window is smaller than the drawn sprite, the
/// lower bound exceeds the upper one; the upper clamp is applied last, so
/// the coordinate ends on the upper bound, the window side less half the
/// extent, whatever it was before.
pub proof fn lemma_confined_degenerate(t: Transform, window: WindowSize)
    ensures
        ({
            let hw = half_extent_spec(PLAYER_WIDTH as int, t.scale_x as int);
            2 * hw > window.width_units() ==> confined(t, window).x == window.width_units() - hw
        }),
        ({
            let hh = half_extent_spec(PLAYER_HEIGHT as int, t.scale_y as int);
            2 * hh > window.height_units() ==> confined(t, window).y == window.height_units() - hh
        }),
{
    lemma_confined_fits(t, window);
}

proof fn lemma_confined_fits(t: Transform, window: WindowSize)
    ensures
        ({
            let hw = half_extent_spec(PLAYER_WIDTH as int, t.scale_x as int);
            let hh = half_extent_spec(PLAYER_HEIGHT as int, t.scale_y as int);
            &&& confined(t, window).x == clamp_axis_spec(t.x as int, hw, window.width_units() - hw)
            &&& confined(t, window).y == clamp_axis_spec(t.y as int, hh, window.height_units() - hh)
        }),
{
    let sx = t.scale_x as int;
    let sy = t.scale_y as int;
    assert(0 <= PLAYER_WIDTH * sx <= 292 * 0xffff_ffff) by (nonlinear_arith)
        requires 0 <= sx <= 0xffff_ffff;
    assert(0 <= PLAYER_HEIGHT * sy <= 208 * 0xffff_ffff) by (nonlinear_arith)
        requires 0 <= sy <= 0xffff_ffff;
}

} // verus!
