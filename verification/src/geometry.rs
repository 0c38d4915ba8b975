//! Angles and distances in the engine's integer world.
//!
//! Angles are whole millidegrees, so a full turn is `FULL_TURN` units and the
//! four axis directions are exact. The y axis points down the screen: an angle
//! strictly between zero and a half turn faces down.

use vstd::prelude::*;

verus! {

/// One full turn, in angle units (millidegrees).
pub const FULL_TURN: i64 = 360_000;

/// Half a turn: the angle that plays the part of pi.
pub const HALF_TURN: i64 = 180_000;

/// A quarter turn.
pub const QUARTER_TURN: i64 = 90_000;

/// Three quarters of a turn.
pub const THREE_QUARTER_TURN: i64 = 270_000;

/// Largest magnitude of a coordinate that `distance_between_points` accepts.
pub const MAX_COORDINATE: i64 = 0x2000_0000_0000_0000;

/// The representative of `angle` in `[0, FULL_TURN)`.
pub open spec fn normalized(angle: int) -> int {
    angle % (FULL_TURN as int)
}

/// Whether `angle` is its own representative.
pub open spec fn is_normalized(angle: int) -> bool {
    0 <= angle < FULL_TURN
}

/// A normalized angle faces down when it lies strictly inside the lower half plane.
pub open spec fn facing_down(angle: int) -> bool {
    0 < angle < HALF_TURN
}

/// A normalized angle faces right when it lies strictly inside the right half plane.
pub open spec fn facing_right(angle: int) -> bool {
    angle < QUARTER_TURN || angle > THREE_QUARTER_TURN
}

/// `r` is the integer part of the square root of `n`.
pub open spec fn is_floor_sqrt(r: int, n: int) -> bool {
    0 <= r && r * r <= n < (r + 1) * (r + 1)
}

/// The integer part of the square root of `n`.
pub open spec fn floor_sqrt(n: int) -> int {
    choose|r: int| is_floor_sqrt(r, n)
}

/// Square of the straight-line distance between two points.
pub open spec fn squared_distance(x0: int, y0: int, x1: int, y1: int) -> int {
    (x1 - x0) * (x1 - x0) + (y1 - y0) * (y1 - y0)
}

/// Two integer square roots of one number are the same number.
pub proof fn lemma_floor_sqrt_unique(r1: int, r2: int, n: int)
    requires
        is_floor_sqrt(r1, n),
        is_floor_sqrt(r2, n),
    ensures
        r1 == r2,
{
    if r1 < r2 {
        assert((r1 + 1) * (r1 + 1) <= r2 * r2) by (nonlinear_arith)
            requires
                0 <= r1 + 1 <= r2,
        ;
    } else if r2 < r1 {
        assert((r2 + 1) * (r2 + 1) <= r1 * r1) by (nonlinear_arith)
            requires
                0 <= r2 + 1 <= r1,
        ;
    }
}

/// Whoever holds an integer square root of `n` holds `floor_sqrt(n)`.
pub proof fn lemma_floor_sqrt_is(r: int, n: int)
    requires
        is_floor_sqrt(r, n),
    ensures
        floor_sqrt(n) == r,
{
    lemma_floor_sqrt_unique(r, floor_sqrt(n), n);
}

/// Brings `angle` into `[0, FULL_TURN)` by whole turns.
pub fn normalize_angle(angle: &mut i64)
    ensures
        *final(angle) == normalized(*old(angle) as int),
        is_normalized(*final(angle) as int),
{
    let r: i64 = *angle % FULL_TURN;
    if r < 0 {
        *angle = r + FULL_TURN;
    } else {
        *angle = r;
    }
}

/// Whether a normalized angle faces down the screen.
pub fn is_angle_facing_down(angle: &i64) -> (down: bool)
    ensures
        down == facing_down(*angle as int),
{
    *angle > 0 && *angle < HALF_TURN
}

/// Whether a normalized angle faces right.
pub fn is_angle_facing_right(angle: &i64) -> (right: bool)
    ensures
        right == facing_right(*angle as int),
{
    *angle < QUARTER_TURN || *angle > THREE_QUARTER_TURN
}

/// Integer part of the square root of `n`, for `n` below `2^126`.
pub fn integer_sqrt(n: u128) -> (r: u64)
    requires
        n < 0x4000_0000_0000_0000_0000_0000_0000_0000,
    ensures
        r == floor_sqrt(n as int),
        is_floor_sqrt(r as int, n as int),
{
    let mut lo: u128 = 0;
    let mut hi: u128 = 0x8000_0000_0000_0000;
    assert(hi * hi == 0x4000_0000_0000_0000_0000_0000_0000_0000) by (nonlinear_arith)
        requires
            hi == 0x8000_0000_0000_0000,
    ;
    while hi - lo > 1
        invariant
            lo < hi <= 0x8000_0000_0000_0000,
            lo * lo <= n < hi * hi,
        decreases hi - lo,
    {
        let mid: u128 = lo + (hi - lo) / 2;
        assert(mid * mid <= 0x4000_0000_0000_0000_0000_0000_0000_0000) by (nonlinear_arith)
            requires
                mid <= 0x8000_0000_0000_0000,
        ;
        if mid * mid <= n {
            lo = mid;
        } else {
            hi = mid;
        }
    }
    proof {
        lemma_floor_sqrt_is(lo as int, n as int);
    }
    lo as u64
}

/// How far apart two coordinates are.
fn gap(a: i64, b: i64) -> (g: u128)
    ensures
        g == if a <= b { b - a } else { a - b },
{
    if a <= b {
        (b as i128 - a as i128) as u128
    } else {
        (a as i128 - b as i128) as u128
    }
}

/// Square of the straight-line distance between two points.
pub fn squared_distance_between_points(x0: i64, y0: i64, x1: i64, y1: i64) -> (d2: u128)
    requires
        -MAX_COORDINATE <= x0 <= MAX_COORDINATE,
        -MAX_COORDINATE <= y0 <= MAX_COORDINATE,
        -MAX_COORDINATE <= x1 <= MAX_COORDINATE,
        -MAX_COORDINATE <= y1 <= MAX_COORDINATE,
    ensures
        d2 == squared_distance(x0 as int, y0 as int, x1 as int, y1 as int),
        d2 <= 0x2000_0000_0000_0000_0000_0000_0000_0000,
{
    let dx: u128 = gap(x0, x1);
    let dy: u128 = gap(y0, y1);
    assert(dx * dx <= 0x1000_0000_0000_0000_0000_0000_0000_0000) by (nonlinear_arith)
        requires
            dx <= 0x4000_0000_0000_0000,
    ;
    assert(dy * dy <= 0x1000_0000_0000_0000_0000_0000_0000_0000) by (nonlinear_arith)
        requires
            dy <= 0x4000_0000_0000_0000,
    ;
    assert(dx * dx == (x1 - x0) * (x1 - x0)) by (nonlinear_arith)
        requires
            dx == x1 - x0 || dx == x0 - x1,
    ;
    assert(dy * dy == (y1 - y0) * (y1 - y0)) by (nonlinear_arith)
        requires
            dy == y1 - y0 || dy == y0 - y1,
    ;
    dx * dx + dy * dy
}

/// Straight-line distance between two points, rounded down to a whole unit.
pub fn distance_between_points(x0: i64, y0: i64, x1: i64, y1: i64) -> (d: i64)
    requires
        -MAX_COORDINATE <= x0 <= MAX_COORDINATE,
        -MAX_COORDINATE <= y0 <= MAX_COORDINATE,
        -MAX_COORDINATE <= x1 <= MAX_COORDINATE,
        -MAX_COORDINATE <= y1 <= MAX_COORDINATE,
    ensures
        d == floor_sqrt(squared_distance(x0 as int, y0 as int, x1 as int, y1 as int)),
        is_floor_sqrt(d as int, squared_distance(x0 as int, y0 as int, x1 as int, y1 as int)),
{
    let r: u64 = integer_sqrt(squared_distance_between_points(x0, y0, x1, y1));
    assert(r < 0x8000_0000_0000_0000) by (nonlinear_arith)
        requires
            r * r <= 0x2000_0000_0000_0000_0000_0000_0000_0000,
    ;
    r as i64
}

/// Normalizing lands in `[0, FULL_TURN)`, and normalizing again changes nothing.
pub proof fn normalize_is_idempotent(angle: int)
    ensures
        is_normalized(normalized(angle)),
        normalized(normalized(angle)) == normalized(angle),
{
}

/// Turning an angle by half a turn flips whether it faces down, except on the
/// horizontal axis itself, where neither direction faces down.
pub proof fn half_turn_flips_facing_down(angle: int)
    requires
        normalized(angle) != 0,
        normalized(angle) != HALF_TURN,
    ensures
        facing_down(normalized(angle)) != facing_down(normalized(angle + HALF_TURN)),
{
}

} // verus!
