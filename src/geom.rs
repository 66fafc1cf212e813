//! Fixed-point plane geometry: vectors, lengths, directions and box overlap.
//!
//! Every position, size and speed is held in thousandths of a pixel, so the
//! simulation needs no floating point.
use vstd::prelude::*;

verus! {

/// Fixed-point units in one pixel.
pub const UNIT: i64 = 1000;

/// Actor positions stay within this distance of the origin on each axis.
pub const WORLD_LIMIT: i64 = 1_000_000_000_000;

/// Hitbox positions stay within this distance of the origin on each axis.
pub const REACH_LIMIT: i64 = 2_000_000_000_000;

/// Largest component of a vector that can be turned into a direction.
pub const DIR_LIMIT: i64 = 17_592_186_044_416;

/// Largest speed (or length) that a direction can be scaled to.
pub const SPEED_LIMIT: i64 = 1_048_576;

/// Largest extent of a box on either axis.
pub const SIZE_LIMIT: i64 = 1_000_000_000;

/// Lengths are taken of a vector scaled by this factor, so that short
/// directions such as `(1, 1)` are normalised precisely.
pub const LENGTH_PRECISION: u128 = 1024;

/// A point or displacement in fixed-point units.
#[derive(Clone, Copy, Debug, PartialEq, Eq, Structural)]
pub struct Vec2 {
    pub x: i64,
    pub y: i64,
}

pub open spec fn abs(v: int) -> int {
    if v < 0 {
        -v
    } else {
        v
    }
}

impl Vec2 {
    pub fn new(x: i64, y: i64) -> (r: Vec2)
        ensures
            r.x == x,
            r.y == y,
    {
        Vec2 { x, y }
    }

    /// Both components lie within `limit` of zero.
    pub open spec fn bounded(self, limit: int) -> bool {
        abs(self.x as int) <= limit && abs(self.y as int) <= limit
    }

    /// Both components are zero.
    pub open spec fn is_zero(self) -> bool {
        self.x == 0 && self.y == 0
    }
}

pub open spec fn vec_of(x: int, y: int) -> Vec2 {
    Vec2 { x: x as i64, y: y as i64 }
}

pub open spec fn sum(a: Vec2, b: Vec2) -> Vec2 {
    vec_of(a.x + b.x, a.y + b.y)
}

pub open spec fn diff(a: Vec2, b: Vec2) -> Vec2 {
    vec_of(a.x - b.x, a.y - b.y)
}

pub open spec fn negated(a: Vec2) -> Vec2 {
    vec_of(-(a.x as int), -(a.y as int))
}

/// The vector turned a quarter turn counter-clockwise.
pub open spec fn quarter_turn(a: Vec2) -> Vec2 {
    vec_of(-(a.y as int), a.x as int)
}

/// `a + b`, for vectors whose sum fits.
pub fn plus(a: Vec2, b: Vec2) -> (r: Vec2)
    requires
        a.bounded(REACH_LIMIT as int),
        b.bounded(REACH_LIMIT as int),
    ensures
        r == sum(a, b),
{
    Vec2 { x: a.x + b.x, y: a.y + b.y }
}

/// `a - b`, for vectors whose difference fits.
pub fn minus(a: Vec2, b: Vec2) -> (r: Vec2)
    requires
        a.bounded(REACH_LIMIT as int),
        b.bounded(REACH_LIMIT as int),
    ensures
        r == diff(a, b),
        r.bounded(2 * REACH_LIMIT),
{
    Vec2 { x: a.x - b.x, y: a.y - b.y }
}

/// `-a`.
pub fn negate(a: Vec2) -> (r: Vec2)
    requires
        a.bounded(DIR_LIMIT as int),
    ensures
        r == negated(a),
        r.bounded(DIR_LIMIT as int),
{
    Vec2 { x: -a.x, y: -a.y }
}

/// `a` turned a quarter turn counter-clockwise.
pub fn turn_quarter(a: Vec2) -> (r: Vec2)
    requires
        a.bounded(DIR_LIMIT as int),
    ensures
        r == quarter_turn(a),
        r.bounded(DIR_LIMIT as int),
{
    Vec2 { x: -a.y, y: a.x }
}

pub open spec fn clamp(v: int, limit: int) -> int {
    if v < -limit {
        -limit
    } else if v > limit {
        limit
    } else {
        v
    }
}

/// The point moved onto the play field, one axis at a time.
pub open spec fn clamped(p: Vec2) -> Vec2 {
    vec_of(clamp(p.x as int, WORLD_LIMIT as int), clamp(p.y as int, WORLD_LIMIT as int))
}

/// Moves a point onto the play field: each coordinate is clamped to
/// `[-WORLD_LIMIT, WORLD_LIMIT]`.
pub fn clamp_to_world(p: Vec2) -> (r: Vec2)
    ensures
        r == clamped(p),
        r.bounded(WORLD_LIMIT as int),
{
    let x = if p.x < -WORLD_LIMIT {
        -WORLD_LIMIT
    } else if p.x > WORLD_LIMIT {
        WORLD_LIMIT
    } else {
        p.x
    };
    let y = if p.y < -WORLD_LIMIT {
        -WORLD_LIMIT
    } else if p.y > WORLD_LIMIT {
        WORLD_LIMIT
    } else {
        p.y
    };
    Vec2 { x, y }
}

/// `r` is the integer square root of `n`: the largest `r` with `r * r <= n`.
pub open spec fn is_root(n: int, r: int) -> bool {
    0 <= r && r * r <= n && n < (r + 1) * (r + 1)
}

pub open spec fn root(n: int) -> int {
    choose|r: int| is_root(n, r)
}

proof fn lemma_root_unique(n: int, a: int, b: int)
    requires
        is_root(n, a),
        is_root(n, b),
    ensures
        a == b,
{
    if a < b {
        assert((a + 1) * (a + 1) <= b * b) by (nonlinear_arith)
            requires
                0 <= a,
                a + 1 <= b,
        ;
    } else if b < a {
        assert((b + 1) * (b + 1) <= a * a) by (nonlinear_arith)
            requires
                0 <= b,
                b + 1 <= a,
        ;
    }
}

/// Integer square root by bisection.
pub fn isqrt(n: u128) -> (r: u128)
    ensures
        is_root(n as int, r as int),
        r as int == root(n as int),
{
    let mut lo: u128 = 0;
    let mut hi: u128 = 0x1_0000_0000_0000_0000;
    assert(n < hi * hi);
    while hi - lo > 1
        invariant
            lo < hi,
            hi <= 0x1_0000_0000_0000_0000u128,
            lo * lo <= n,
            n < hi * hi,
        decreases hi - lo,
    {
        let mid = lo + (hi - lo) / 2;
        assert(mid * mid <= u128::MAX) by (nonlinear_arith)
            requires
                mid < 0x1_0000_0000_0000_0000u128,
        ;
        if mid * mid <= n {
            lo = mid;
        } else {
            hi = mid;
        }
    }
    proof {
        assert(is_root(n as int, lo as int));
        lemma_root_unique(n as int, lo as int, root(n as int));
    }
    lo
}

/// The length of `d` multiplied by `LENGTH_PRECISION`, rounded down.
pub open spec fn fine_length(d: Vec2) -> int {
    root((d.x * d.x + d.y * d.y) * (LENGTH_PRECISION * LENGTH_PRECISION))
}

/// One component of a direction scaled to `speed`, rounded toward zero.
pub open spec fn scaled_part(c: int, speed: int, len: int) -> int {
    if c >= 0 {
        c * speed * LENGTH_PRECISION / len
    } else {
        -((-c) * speed * LENGTH_PRECISION / len)
    }
}

/// The vector of length `speed` pointing along `d`, each component rounded
/// toward zero. A zero `d` has no direction: the positive x axis is taken.
pub open spec fn heading(d: Vec2, speed: int) -> Vec2 {
    if d.is_zero() {
        vec_of(speed, 0)
    } else {
        vec_of(
            scaled_part(d.x as int, speed, fine_length(d)),
            scaled_part(d.y as int, speed, fine_length(d)),
        )
    }
}

proof fn lemma_part_within_length(c: int, n: int, len: int)
    requires
        0 <= c,
        c * c * (LENGTH_PRECISION * LENGTH_PRECISION) <= n,
        is_root(n, len),
    ensures
        c * LENGTH_PRECISION <= len,
{
    let p = LENGTH_PRECISION as int;
    assert((c * p) * (c * p) == c * c * (p * p)) by (nonlinear_arith);
    if c * p > len {
        assert((len + 1) * (len + 1) <= (c * p) * (c * p)) by (nonlinear_arith)
            requires
                0 <= len,
                len + 1 <= c * p,
        ;
    }
}

proof fn lemma_scaled_within(c: int, speed: int, len: int)
    requires
        0 <= c,
        0 <= speed,
        1 <= len,
        c * LENGTH_PRECISION <= len,
    ensures
        c * speed * LENGTH_PRECISION / len <= speed,
        0 <= c * speed * LENGTH_PRECISION / len,
{
    let p = LENGTH_PRECISION as int;
    assert(c * speed * p <= len * speed) by (nonlinear_arith)
        requires
            0 <= speed,
            c * p <= len,
    ;
    assert(0 <= c * speed * p) by (nonlinear_arith)
        requires
            0 <= p,
            0 <= c,
            0 <= speed,
    ;
    vstd::arithmetic::div_mod::lemma_div_is_ordered(c * speed * p, len * speed, len);
    vstd::arithmetic::div_mod::lemma_div_by_multiple(speed, len);
    assert(len * speed == speed * len) by (nonlinear_arith);
    vstd::arithmetic::div_mod::lemma_div_pos_is_pos(c * speed * p, len);
}

/// Magnitude of a component, as an unsigned value.
fn magnitude(c: i64) -> (r: u128)
    ensures
        r as int == abs(c as int),
{
    if c < 0 {
        (-(c as i128)) as u128
    } else {
        c as u128
    }
}

/// One component scaled along a direction whose fine length is `len`.
fn scale_part(c: i64, speed: i64, len: u128, n: u128) -> (r: i64)
    requires
        abs(c as int) <= DIR_LIMIT,
        0 <= speed <= SPEED_LIMIT,
        c * c * (LENGTH_PRECISION * LENGTH_PRECISION) <= n,
        is_root(n as int, len as int),
        1 <= len,
    ensures
        r as int == scaled_part(c as int, speed as int, len as int),
        abs(r as int) <= speed,
{
    let m = magnitude(c);
    proof {
        assert(m * m == c * c) by (nonlinear_arith)
            requires
                m == abs(c as int),
        ;
        lemma_part_within_length(m as int, n as int, len as int);
        lemma_scaled_within(m as int, speed as int, len as int);
        assert(m * (speed as u128) * LENGTH_PRECISION <= 0x1_0000_0000_0000_0000_0000u128)
            by (nonlinear_arith)
            requires
                m <= DIR_LIMIT,
                0 <= speed <= SPEED_LIMIT,
        ;
    }
    let q = m * (speed as u128) * LENGTH_PRECISION / len;
    if c >= 0 {
        q as i64
    } else {
        -(q as i64)
    }
}

/// The vector of length `speed` pointing along `d` (see `heading`).
pub fn toward(d: Vec2, speed: i64) -> (r: Vec2)
    requires
        d.bounded(DIR_LIMIT as int),
        0 <= speed <= SPEED_LIMIT,
    ensures
        r == heading(d, speed as int),
        r.bounded(speed as int),
{
    if d.x == 0 && d.y == 0 {
        return Vec2 { x: speed, y: 0 };
    }
    let ax = magnitude(d.x);
    let ay = magnitude(d.y);
    let p2: u128 = LENGTH_PRECISION * LENGTH_PRECISION;
    proof {
        assert(ax * ax <= DIR_LIMIT * DIR_LIMIT) by (nonlinear_arith)
            requires
                ax <= DIR_LIMIT,
        ;
        assert(ay * ay <= DIR_LIMIT * DIR_LIMIT) by (nonlinear_arith)
            requires
                ay <= DIR_LIMIT,
        ;
        assert(ax * ax == d.x * d.x) by (nonlinear_arith)
            requires
                ax == abs(d.x as int),
        ;
        assert(ay * ay == d.y * d.y) by (nonlinear_arith)
            requires
                ay == abs(d.y as int),
        ;
    }
    let n: u128 = (ax * ax + ay * ay) * p2;
    let len = isqrt(n);
    proof {
        let sq = (ax * ax + ay * ay) as int;
        assert(sq >= 1) by (nonlinear_arith)
            requires
                sq == ax * ax + ay * ay,
                ax > 0 || ay > 0,
        ;
        assert(p2 * 1 <= n) by (nonlinear_arith)
            requires
                sq >= 1,
                n == sq * p2,
        ;
        if len < 1 {
            assert(n < 1);
        }
        assert(d.x * d.x * p2 <= n) by (nonlinear_arith)
            requires
                n == (d.x * d.x + d.y * d.y) * p2,
        ;
        assert(d.y * d.y * p2 <= n) by (nonlinear_arith)
            requires
                n == (d.x * d.x + d.y * d.y) * p2,
        ;
    }
    let x = scale_part(d.x, speed, len, n);
    let y = scale_part(d.y, speed, len, n);
    Vec2 { x, y }
}

/// Two boxes, given by centre and full extents, overlap on both axes. A box
/// with no extent on an axis overlaps nothing.
pub open spec fn overlap(p1: Vec2, s1: Vec2, p2: Vec2, s2: Vec2) -> bool {
    &&& s1.x > 0 && s1.y > 0 && s2.x > 0 && s2.y > 0
    &&& 2 * abs(p1.x - p2.x) < s1.x + s2.x
    &&& 2 * abs(p1.y - p2.y) < s1.y + s2.y
}

/// A box's extents are non-negative and bounded.
pub open spec fn valid_size(s: Vec2) -> bool {
    0 <= s.x <= SIZE_LIMIT && 0 <= s.y <= SIZE_LIMIT
}

/// Axis-aligned overlap of two boxes centred at `p1` and `p2`.
pub fn boxes_overlap(p1: Vec2, s1: Vec2, p2: Vec2, s2: Vec2) -> (r: bool)
    requires
        p1.bounded(REACH_LIMIT as int),
        p2.bounded(REACH_LIMIT as int),
        valid_size(s1),
        valid_size(s2),
    ensures
        r == overlap(p1, s1, p2, s2),
{
    if s1.x <= 0 || s1.y <= 0 || s2.x <= 0 || s2.y <= 0 {
        return false;
    }
    let dx = magnitude(p1.x - p2.x);
    let dy = magnitude(p1.y - p2.y);
    2 * dx < (s1.x + s2.x) as u128 && 2 * dy < (s1.y + s2.y) as u128
}

} // verus!
