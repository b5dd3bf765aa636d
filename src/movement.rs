use vstd::prelude::*;
use crate::geometry::Transform;

verus! {

/// Player speed: 500 pixels per second, which is 500 units per millisecond.
pub const PLAYER_SPEED: i64 = 500;

/// Bound on coordinates that a move may start from; far beyond any window,
/// and small enough that one step cannot overflow.
pub const COORD_LIMIT: i64 = 0x4000_0000_0000_0000;

/// Which of the four movement keys are held during a frame.
#[derive(Clone, Copy, Debug, PartialEq, Eq)]
pub struct Keys {
    pub w: bool,
    pub a: bool,
    pub s: bool,
    pub d: bool,
}

/// +1, -1 or 0 along one axis: the sum of the unit steps of its two keys.
pub open spec fn axis_dir(plus: bool, minus: bool) -> int {
    (if plus { 1int } else { 0int }) - (if minus { 1int } else { 0int })
}

impl Keys {
    /// The horizontal component of the direction: D to the right, A to the left.
    pub open spec fn dir_x(self) -> int {
        axis_dir(self.d, self.a)
    }

    /// The vertical component of the direction: W up, S down.
    pub open spec fn dir_y(self) -> int {
        axis_dir(self.w, self.s)
    }
}

/// Length of a full step over `dt` milliseconds, in units.
pub open spec fn step_length(dt: int) -> int {
    PLAYER_SPEED * dt
}

/// The integer square root of `n`, rounded down.
pub open spec fn floor_sqrt(n: nat) -> nat
    decreases n,
{
    if n == 0 {
        0
    } else {
        let r = floor_sqrt((n - 1) as nat);
        if (r + 1) * (r + 1) <= n {
            r + 1
        } else {
            r
        }
    }
}

/// `c` is the longest integer leg of a diagonal step that is no longer
/// than `len`: `c` along each axis stays within `len`, `c + 1` would not.
pub open spec fn is_diagonal_leg(c: int, len: int) -> bool {
    0 <= c && 2 * c * c <= len * len < 2 * (c + 1) * (c + 1)
}

/// The leg of a diagonal step of length `len`: `len / sqrt(2)`, rounded down.
pub open spec fn diagonal_leg_spec(len: int) -> int {
    floor_sqrt((len * len / 2) as nat) as int
}

/// `v` taken in the direction `dir`: `v`, `-v` or 0 as `dir` is positive,
/// negative or 0.
pub open spec fn directed(dir: int, v: int) -> int {
    if dir > 0 {
        v
    } else if dir < 0 {
        -v
    } else {
        0
    }
}

proof fn lemma_directed(dir: int, v: int)
    requires
        -1 <= dir <= 1,
    ensures
        directed(dir, v) == dir * v,
{
    assert(dir == 1 || dir == 0 || dir == -1);
    if dir == 1 {
        assert(dir * v == v) by (nonlinear_arith) requires dir == 1;
    } else if dir == -1 {
        assert(dir * v == -v) by (nonlinear_arith) requires dir == -1;
    } else {
        assert(dir * v == 0) by (nonlinear_arith) requires dir == 0;
    }
}

/// The displacement of the player over `dt` milliseconds with `keys` held:
/// the direction made unit-length, times the step length. A diagonal
/// direction moves by the rounded-down leg on each axis.
pub open spec fn displacement_spec(keys: Keys, dt: int) -> (int, int) {
    let len = step_length(dt);
    if keys.dir_x() != 0 && keys.dir_y() != 0 {
        let c = diagonal_leg_spec(len);
        (directed(keys.dir_x(), c), directed(keys.dir_y(), c))
    } else {
        (directed(keys.dir_x(), len), directed(keys.dir_y(), len))
    }
}

proof fn lemma_floor_sqrt(n: nat)
    ensures
        floor_sqrt(n) * floor_sqrt(n) <= n < (floor_sqrt(n) + 1) * (floor_sqrt(n) + 1),
    decreases n,
{
    if n == 0 {
        assert(floor_sqrt(0) == 0);
        assert(0 * 0 <= 0nat < (0 + 1) * (0 + 1)) by (nonlinear_arith);
    } else {
        lemma_floor_sqrt((n - 1) as nat);
        let r = floor_sqrt((n - 1) as nat);
        assert(n < (r + 2) * (r + 2)) by (nonlinear_arith)
            requires r * r <= n - 1 < (r + 1) * (r + 1);
        if (r + 1) * (r + 1) <= n {
            assert(floor_sqrt(n) == r + 1);
            assert((r + 1) * (r + 1) <= n < (r + 1 + 1) * (r + 1 + 1));
        } else {
            assert(floor_sqrt(n) == r);
            assert(r * r <= n);
        }
    }
}

/// The rounded-down leg is the one integer that [`is_diagonal_leg`] describes.
pub proof fn lemma_diagonal_leg(c: int, len: int)
    requires
        len >= 0,
    ensures
        is_diagonal_leg(diagonal_leg_spec(len), len),
        is_diagonal_leg(c, len) ==> c == diagonal_leg_spec(len),
{
    let n = len * len / 2;
    assert(len * len >= 0) by (nonlinear_arith) requires len >= 0;
    lemma_floor_sqrt(n as nat);
    let r = floor_sqrt(n as nat) as int;
    assert(2 * r * r <= len * len < 2 * (r + 1) * (r + 1)) by (nonlinear_arith)
        requires r * r <= n < (r + 1) * (r + 1), n == len * len / 2, len * len >= 0;
    if is_diagonal_leg(c, len) && c != r {
        if c < r {
            assert(2 * (c + 1) * (c + 1) <= 2 * r * r) by (nonlinear_arith)
                requires 0 <= c < r;
        } else {
            assert(2 * (r + 1) * (r + 1) <= 2 * c * c) by (nonlinear_arith)
                requires 0 <= r < c;
        }
    }
}

/// `len / sqrt(2)` rounded down, found by bisection.
pub fn diagonal_leg(len: u64) -> (r: u64)
    requires
        len <= 0x1_0000_0000_0000,
    ensures
        r == diagonal_leg_spec(len as int),
{
    assert((len as u128) * (len as u128) <= 0x1_0000_0000_0000u128 * 0x1_0000_0000_0000u128)
        by (nonlinear_arith)
        requires len <= 0x1_0000_0000_0000u64;
    let len2: u128 = (len as u128) * (len as u128);
    let mut lo: u128 = 0;
    let mut hi: u128 = len as u128 + 1;
    assert(len2 < 2 * hi * hi) by (nonlinear_arith)
        requires len2 == len * len, hi == len + 1, len >= 0;
    while lo + 1 < hi
        invariant
            0 <= lo < hi <= len + 1,
            len <= 0x1_0000_0000_0000,
            len2 == len * len,
            2 * lo * lo <= len2 < 2 * hi * hi,
        decreases hi - lo,
    {
        let mid = lo + (hi - lo) / 2;
        assert(2 * mid * mid <= 2 * (0x1_0000_0000_0001u128 * 0x1_0000_0000_0001u128))
            by (nonlinear_arith)
            requires 0 <= mid <= 0x1_0000_0000_0001u128;
        if 2 * mid * mid <= len2 {
            lo = mid;
        } else {
            hi = mid;
        }
    }
    proof {
        lemma_diagonal_leg(lo as int, len as int);
    }
    lo as u64
}

/// The player's displacement over `dt` milliseconds with `keys` held.
///
/// Each held key adds a unit step along its axis (opposite keys cancel);
/// a non-zero direction is made unit length, so a diagonal is no faster
/// than a straight move; the result is that direction times
/// `PLAYER_SPEED * dt`.
pub fn displacement(keys: Keys, dt: u32) -> (r: (i64, i64))
    ensures
        r.0 == displacement_spec(keys, dt as int).0,
        r.1 == displacement_spec(keys, dt as int).1,
        keys.dir_x() == 0 && keys.dir_y() == 0 ==> r == (0i64, 0i64),
{
    let mut dx: i64 = 0;
    let mut dy: i64 = 0;
    if keys.w {
        dy = dy + 1;
    }
    if keys.s {
        dy = dy - 1;
    }
    if keys.a {
        dx = dx - 1;
    }
    if keys.d {
        dx = dx + 1;
    }
    let len: i64 = PLAYER_SPEED * (dt as i64);
    if dx != 0 && dy != 0 {
        let c = diagonal_leg(len as u64);
        proof {
            lemma_leg_at_most(len as int);
        }
        (signed(dx, c as i64), signed(dy, c as i64))
    } else {
        (signed(dx, len), signed(dy, len))
    }
}

/// `v` taken in the direction `dir`.
fn signed(dir: i64, v: i64) -> (r: i64)
    requires
        v >= 0,
    ensures
        r == directed(dir as int, v as int),
{
    if dir > 0 {
        v
    } else if dir < 0 {
        -v
    } else {
        0
    }
}

proof fn lemma_leg_at_most(len: int)
    requires
        len >= 0,
    ensures
        0 <= diagonal_leg_spec(len) <= len,
{
    lemma_diagonal_leg(0, len);
    let c = diagonal_leg_spec(len);
    if c > len {
        assert(2 * c * c > len * len) by (nonlinear_arith) requires c > len, len >= 0;
    }
}

/// The transform `t` after one frame of movement.
pub open spec fn moved(t: Transform, keys: Keys, dt: int) -> Transform {
    Transform {
        x: (t.x + displacement_spec(keys, dt).0) as i64,
        y: (t.y + displacement_spec(keys, dt).1) as i64,
        ..t
    }
}

/// Whether both coordinates of `t` lie within [`COORD_LIMIT`] of the origin.
pub open spec fn within_limit(t: Transform) -> bool {
    -COORD_LIMIT <= t.x <= COORD_LIMIT && -COORD_LIMIT <= t.y <= COORD_LIMIT
}

/// Moves `t` by one frame's displacement; scale is kept.
pub fn move_transform(t: Transform, keys: Keys, dt: u32) -> (r: Transform)
    requires
        within_limit(t),
    ensures
        r == moved(t, keys, dt as int),
        r.x == t.x + displacement_spec(keys, dt as int).0,
        r.y == t.y + displacement_spec(keys, dt as int).1,
{
    let (dx, dy) = displacement(keys, dt);
    proof {
        lemma_displacement_bounded(keys, dt as int);
    }
    Transform { x: t.x + dx, y: t.y + dy, ..t }
}

proof fn lemma_displacement_bounded(keys: Keys, dt: int)
    requires
        0 <= dt <= u32::MAX,
    ensures
        -step_length(dt) <= displacement_spec(keys, dt).0 <= step_length(dt),
        -step_length(dt) <= displacement_spec(keys, dt).1 <= step_length(dt),
{
    let len = step_length(dt);
    lemma_leg_at_most(len);
    let c = diagonal_leg_spec(len);
    let (ax, ay) = (keys.dir_x(), keys.dir_y());
    lemma_directed(ax, c);
    lemma_directed(ay, c);
    lemma_directed(ax, len);
    lemma_directed(ay, len);
    assert(-len <= ax * c <= len && -len <= ay * c <= len) by (nonlinear_arith)
        requires -1 <= ax <= 1, -1 <= ay <= 1, 0 <= c <= len;
    assert(-len <= ax * len <= len && -len <= ay * len <= len) by (nonlinear_arith)
        requires -1 <= ax <= 1, -1 <= ay <= 1, 0 <= len;
}

/// Absolute value of an integer.
pub open spec fn abs(v: int) -> int {
    if v < 0 { -v } else { v }
}

/// A diagonal move is no faster than a straight one: for every held-key
/// combination with a non-zero direction, the displacement is at most a
/// full step long, and is exactly a full step long on an axis; on a
/// diagonal it is the longest whole-unit step that is not longer.
pub proof fn lemma_direction_unit_length(keys: Keys, dt: int)
    requires
        0 <= dt,
        keys.dir_x() != 0 || keys.dir_y() != 0,
    ensures
        ({
            let (mx, my) = displacement_spec(keys, dt);
            let len = step_length(dt);
            &&& mx * mx + my * my <= len * len
            &&& len * len < (abs(mx) + 1) * (abs(mx) + 1) + (abs(my) + 1) * (abs(my) + 1)
            &&& (keys.dir_x() == 0 || keys.dir_y() == 0) ==> mx * mx + my * my == len * len
        }),
{
    let (mx, my) = displacement_spec(keys, dt);
    let len = step_length(dt);
    let (ax, ay) = (keys.dir_x(), keys.dir_y());
    lemma_directed(ax, len);
    lemma_directed(ay, len);
    if ax != 0 && ay != 0 {
        lemma_diagonal_leg(0, len);
        let c = diagonal_leg_spec(len);
        lemma_directed(ax, c);
        lemma_directed(ay, c);
        assert(mx * mx == c * c && my * my == c * c && abs(mx) == c && abs(my) == c)
            by (nonlinear_arith)
            requires mx == ax * c, my == ay * c, ax == 1 || ax == -1, ay == 1 || ay == -1, c >= 0;
        assert(mx * mx + my * my <= len * len
            && len * len < (abs(mx) + 1) * (abs(mx) + 1) + (abs(my) + 1) * (abs(my) + 1))
            by (nonlinear_arith)
            requires mx * mx == c * c, my * my == c * c, abs(mx) == c, abs(my) == c,
                2 * c * c <= len * len < 2 * (c + 1) * (c + 1);
    } else {
        assert(mx * mx + my * my == len * len) by (nonlinear_arith)
            requires mx == ax * len, my == ay * len, ax == 0 || ay == 0,
                -1 <= ax <= 1, -1 <= ay <= 1, ax != 0 || ay != 0;
        assert(len * len < (abs(mx) + 1) * (abs(mx) + 1) + (abs(my) + 1) * (abs(my) + 1))
            by (nonlinear_arith)
            requires mx == ax * len, my == ay * len, ax == 0 || ay == 0,
                -1 <= ax <= 1, -1 <= ay <= 1, ax != 0 || ay != 0, len >= 0,
                abs(mx) == (if mx < 0 { -mx } else { mx }),
                abs(my) == (if my < 0 { -my } else { my });
    }
}

/// Opposite keys held together cancel: W with S gives no vertical
/// movement, A with D no horizontal movement, all four none at all.
pub proof fn lemma_opposing_keys_cancel(keys: Keys, dt: int)
    ensures
        keys.w && keys.s ==> displacement_spec(keys, dt).1 == 0,
        keys.a && keys.d ==> displacement_spec(keys, dt).0 == 0,
        keys.w && keys.s && keys.a && keys.d ==> displacement_spec(keys, dt) == (0int, 0int),
{
}

/// With no key held the player stays where it is, however long the frame.
pub proof fn lemma_no_keys_no_move(t: Transform, dt: int)
    requires
        within_limit(t),
    ensures
        moved(t, Keys { w: false, a: false, s: false, d: false }, dt) == t,
{
}

} // verus!
