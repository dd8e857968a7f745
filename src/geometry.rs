//! Integer vectors, circles and the circle overlap test.

use vstd::prelude::*;

verus! {

/// Sub-units in one world unit.
pub const SUBUNITS: i32 = 1000;

/// Length of a direction vector: a unit vector is stored scaled by this.
pub const DIRECTION_SCALE: u32 = 65536;

/// Largest radius a circle may have, in sub-units.
pub const MAX_RADIUS: u32 = 536870912;

/// `r` is the square root of `n` rounded down: `r >= 0` and
/// `r * r <= n < (r + 1) * (r + 1)`.
pub open spec fn is_floor_sqrt(n: int, r: int) -> bool {
    0 <= r && r * r <= n && n < (r + 1) * (r + 1)
}

/// The square root of `n` rounded down, for `n >= 0`.
pub open spec fn floor_sqrt(n: int) -> int {
    choose|r: int| is_floor_sqrt(n, r)
}

proof fn lemma_square_monotonic(a: int, b: int)
    requires
        0 <= a <= b,
    ensures
        a * a <= b * b,
{
    assert(a * a <= b * b) by (nonlinear_arith)
        requires
            0 <= a <= b,
    ;
}

/// The floor square root is unique, so `floor_sqrt` picks exactly it.
pub proof fn lemma_floor_sqrt_unique(n: int, r: int)
    requires
        is_floor_sqrt(n, r),
    ensures
        floor_sqrt(n) == r,
{
    let s = floor_sqrt(n);
    assert(is_floor_sqrt(n, s));
    if s < r {
        lemma_square_monotonic(s + 1, r);
    } else if r < s {
        lemma_square_monotonic(r + 1, s);
    }
}

/// Integer square root, rounded down.
pub fn isqrt(n: u128) -> (r: u128)
    ensures
        r == floor_sqrt(n as int),
        is_floor_sqrt(n as int, r as int),
{
    let mut lo: u128 = 0;
    let mut hi: u128 = 0x1_0000_0000_0000_0000;
    assert(n < hi * hi) by (nonlinear_arith)
        requires
            hi == 0x1_0000_0000_0000_0000u128,
            n <= u128::MAX,
    ;
    while hi - lo > 1
        invariant
            lo < hi <= 0x1_0000_0000_0000_0000u128,
            lo * lo <= n,
            n < hi * hi,
        decreases hi - lo,
    {
        let mid: u128 = lo + (hi - lo) / 2;
        assert(mid * mid < 0x1_0000_0000_0000_0000_0000_0000_0000_0000int) by (nonlinear_arith)
            requires
                mid < 0x1_0000_0000_0000_0000u128,
        ;
        if mid * mid <= n {
            lo = mid;
        } else {
            hi = mid;
        }
    }
    proof {
        lemma_floor_sqrt_unique(n as int, lo as int);
    }
    lo
}


/// A point or displacement on the plane, in sub-units.
#[derive(Clone, Copy, Debug, PartialEq, Eq, Structural)]
pub struct Vec2 {
    pub x: i32,
    pub y: i32,
}

/// `v` pinned to the range of a coordinate.
pub open spec fn clamp_coord(v: int) -> int {
    if v < i32::MIN {
        i32::MIN as int
    } else if v > i32::MAX {
        i32::MAX as int
    } else {
        v
    }
}

pub fn clamp_to_coord(v: i128) -> (r: i32)
    ensures
        r == clamp_coord(v as int),
{
    if v < i32::MIN as i128 {
        i32::MIN
    } else if v > i32::MAX as i128 {
        i32::MAX
    } else {
        v as i32
    }
}

/// `a - b`, each coordinate pinned to the range of `i32`.
pub open spec fn vec_sub(a: Vec2, b: Vec2) -> Vec2 {
    Vec2 { x: clamp_coord(a.x - b.x) as i32, y: clamp_coord(a.y - b.y) as i32 }
}

pub open spec fn is_zero_vec(v: Vec2) -> bool {
    v.x == 0 && v.y == 0
}

/// Squared Euclidean length of `(dx, dy)`.
pub open spec fn len_sq(dx: int, dy: int) -> int {
    dx * dx + dy * dy
}

/// Component `c` of a vector of length `len`, rescaled to length `m`; the
/// magnitude is rounded up, so that the result is zero only where `c` is.
pub open spec fn scale_axis(c: int, m: int, len: int) -> int {
    if c >= 0 {
        (c * m + len - 1) / len
    } else {
        -(((-c) * m + len - 1) / len)
    }
}

/// Vectors are enlarged by this factor before their length is taken, so that
/// the rounded-down square root is accurate for short vectors too.
pub const LENGTH_PRECISION: i64 = 65536;

/// `(dx, dy)` rescaled to length `m`, each component rounded away from zero.
pub open spec fn scale_to(dx: int, dy: int, m: int) -> Vec2 {
    let ex = dx * LENGTH_PRECISION;
    let ey = dy * LENGTH_PRECISION;
    let len = floor_sqrt(len_sq(ex, ey));
    Vec2 { x: scale_axis(ex, m, len) as i32, y: scale_axis(ey, m, len) as i32 }
}

/// The direction of `(dx, dy)` as a vector of length `DIRECTION_SCALE`, or zero.
pub open spec fn normalized(dx: int, dy: int) -> Vec2 {
    if dx == 0 && dy == 0 {
        Vec2 { x: 0, y: 0 }
    } else {
        scale_to(dx, dy, DIRECTION_SCALE as int)
    }
}

proof fn lemma_sqrt_covers_axis(c: int, e: int)
    ensures
        floor_sqrt(len_sq(c, e)) >= c,
        floor_sqrt(len_sq(c, e)) >= -c,
        floor_sqrt(len_sq(c, e)) >= 0,
        is_floor_sqrt(len_sq(c, e), floor_sqrt(len_sq(c, e))),
        len_sq(c, e) >= 0,
{
    let n = len_sq(c, e);
    assert(n >= 0 && n >= c * c) by (nonlinear_arith)
        requires
            n == c * c + e * e,
    ;
    assert(exists|r: int| is_floor_sqrt(n, r)) by {
        assert(n < (n + 1) * (n + 1)) by (nonlinear_arith)
            requires
                n >= 0,
        ;
        let w = choose_witness(n);
        assert(is_floor_sqrt(n, w));
    }
    let r = floor_sqrt(n);
    assert(is_floor_sqrt(n, r));
    let a = if c >= 0 { c } else { -c };
    assert(a * a == c * c) by (nonlinear_arith)
        requires
            a == c || a == -c,
    ;
    if r < a {
        lemma_square_monotonic(r + 1, a);
    }
}

/// Some `r` with `r * r <= n < (r + 1) * (r + 1)`, for `n >= 0`.
proof fn choose_witness(n: int) -> (w: int)
    requires
        n >= 0,
        n < (n + 1) * (n + 1),
    ensures
        is_floor_sqrt(n, w),
    decreases n,
{
    if n == 0 {
        0
    } else {
        let k = n - 1;
        assert(k < (k + 1) * (k + 1)) by (nonlinear_arith)
            requires
                k >= 0,
        ;
        let w = choose_witness(k);
        if n < (w + 1) * (w + 1) {
            w
        } else {
            assert(n < (w + 2) * (w + 2)) by (nonlinear_arith)
                requires
                    n - 1 < (w + 1) * (w + 1),
                    w >= 0,
            ;
            w + 1
        }
    }
}

proof fn lemma_scale_axis_bounds(c: int, m: int, len: int)
    requires
        0 < len,
        0 <= m,
        -len <= c <= len,
    ensures
        -m <= scale_axis(c, m, len) <= m,
        c != 0 && m > 0 ==> scale_axis(c, m, len) != 0,
        c >= 0 ==> scale_axis(c, m, len) >= 0,
        c <= 0 ==> scale_axis(c, m, len) <= 0,
        scale_axis(-c, m, len) == -scale_axis(c, m, len),
{
    let a = if c >= 0 { c } else { -c };
    let q = (a * m + len - 1) / len;
    assert(0 <= a * m <= len * m) by (nonlinear_arith)
        requires
            0 <= a <= len,
            0 <= m,
    ;
    assert(len * m + len - 1 < len * (m + 1)) by (nonlinear_arith)
        requires
            0 < len,
    ;
    assert(q <= m) by (nonlinear_arith)
        requires
            q == (a * m + len - 1) / len,
            a * m + len - 1 < len * (m + 1),
            0 < len,
            0 <= a * m,
    ;
    assert(q >= 0) by (nonlinear_arith)
        requires
            q == (a * m + len - 1) / len,
            0 < len,
            0 <= a * m,
    ;
    if c == 0 {
        assert((0 * m + len - 1) / len == 0) by (nonlinear_arith)
            requires
                0 < len,
        ;
    }
    if a != 0 && m > 0 {
        assert(a * m >= 1) by (nonlinear_arith)
            requires
                a >= 1,
                m >= 1,
        ;
        assert(q >= 1) by (nonlinear_arith)
            requires
                q == (a * m + len - 1) / len,
                a * m + len - 1 >= len,
                0 < len,
        ;
    }
}

/// Squared length of `(dx, dy)`.
pub fn length_squared(dx: i64, dy: i64) -> (r: u128)
    requires
        -0x1_0000_0000_0000 <= dx <= 0x1_0000_0000_0000,
        -0x1_0000_0000_0000 <= dy <= 0x1_0000_0000_0000,
    ensures
        r == len_sq(dx as int, dy as int),
        r <= 0x2_0000_0000_0000_0000_0000_0000,
{
    let x = dx as i128;
    let y = dy as i128;
    assert(0 <= x * x <= 0x1_0000_0000_0000_0000_0000_0000 && 0 <= y * y
        <= 0x1_0000_0000_0000_0000_0000_0000) by (nonlinear_arith)
        requires
            -0x1_0000_0000_0000 <= x <= 0x1_0000_0000_0000,
            -0x1_0000_0000_0000 <= y <= 0x1_0000_0000_0000,
    ;
    (x * x + y * y) as u128
}

/// `(dx, dy)` rescaled to length `m`, each component rounded away from zero.
pub fn scale_vector(dx: i64, dy: i64, m: u32) -> (r: Vec2)
    requires
        dx != 0 || dy != 0,
        -0x1_0000_0000 <= dx <= 0x1_0000_0000,
        -0x1_0000_0000 <= dy <= 0x1_0000_0000,
        m <= MAX_RADIUS * 2,
    ensures
        r == scale_to(dx as int, dy as int, m as int),
        -(m as int) <= r.x <= m,
        -(m as int) <= r.y <= m,
        m > 0 ==> !is_zero_vec(r),
{
    let ex: i64 = dx * LENGTH_PRECISION;
    let ey: i64 = dy * LENGTH_PRECISION;
    assert(ex != 0 || ey != 0) by (nonlinear_arith)
        requires
            dx != 0 || dy != 0,
            ex == dx * 65536,
            ey == dy * 65536,
    ;
    let sq = length_squared(ex, ey);
    let len = isqrt(sq);
    proof {
        lemma_sqrt_covers_axis(ex as int, ey as int);
        lemma_sqrt_covers_axis(ey as int, ex as int);
        assert(len_sq(ey as int, ex as int) == len_sq(ex as int, ey as int));
        assert(len > 0) by {
            if len == 0 {
                assert(ex == 0 && ey == 0);
            }
        }
        assert(len <= 0x2_0000_0000_0000) by (nonlinear_arith)
            requires
                len * len <= sq,
                sq <= 0x2_0000_0000_0000_0000_0000_0000,
        ;
        lemma_scale_axis_bounds(ex as int, m as int, len as int);
        lemma_scale_axis_bounds(ey as int, m as int, len as int);
    }
    let x = scale_component(ex, m, len);
    let y = scale_component(ey, m, len);
    Vec2 { x, y }
}

fn scale_component(c: i64, m: u32, len: u128) -> (r: i32)
    requires
        0 < len,
        -(len as int) <= c <= len,
        -0x1_0000_0000_0000 <= c <= 0x1_0000_0000_0000,
        len <= 0x2_0000_0000_0000,
        m <= MAX_RADIUS * 2,
    ensures
        r == scale_axis(c as int, m as int, len as int),
{
    proof {
        lemma_scale_axis_bounds(c as int, m as int, len as int);
    }
    let a: u128 = if c >= 0 { c as u128 } else { (-(c as i128)) as u128 };
    assert(a * m <= 0x1_0000_0000_0000 * 0x4000_0000) by (nonlinear_arith)
        requires
            a <= 0x1_0000_0000_0000,
            m <= 0x4000_0000,
    ;
    let q: u128 = (a * m as u128 + len - 1) / len;
    if c >= 0 {
        q as i32
    } else {
        -(q as i32)
    }
}


impl Vec2 {
    pub fn new(x: i32, y: i32) -> (r: Vec2)
        ensures
            r.x == x && r.y == y,
    {
        Vec2 { x, y }
    }

    pub fn zero() -> (r: Vec2)
        ensures
            is_zero_vec(r),
    {
        Vec2 { x: 0, y: 0 }
    }

    pub fn is_zero(&self) -> (r: bool)
        ensures
            r == is_zero_vec(*self),
    {
        self.x == 0 && self.y == 0
    }

    /// Componentwise sum, each coordinate pinned to the range of `i32`.
    pub fn add(self, o: Vec2) -> (r: Vec2)
        ensures
            r.x == clamp_coord(self.x + o.x),
            r.y == clamp_coord(self.y + o.y),
    {
        Vec2 {
            x: clamp_to_coord(self.x as i128 + o.x as i128),
            y: clamp_to_coord(self.y as i128 + o.y as i128),
        }
    }

    /// Componentwise difference, each coordinate pinned to the range of `i32`.
    pub fn sub(self, o: Vec2) -> (r: Vec2)
        ensures
            r.x == clamp_coord(self.x - o.x),
            r.y == clamp_coord(self.y - o.y),
    {
        Vec2 {
            x: clamp_to_coord(self.x as i128 - o.x as i128),
            y: clamp_to_coord(self.y as i128 - o.y as i128),
        }
    }

    /// The opposite vector, pinned to the range of `i32`.
    pub fn neg(self) -> (r: Vec2)
        ensures
            r.x == clamp_coord(-self.x),
            r.y == clamp_coord(-self.y),
    {
        Vec2 { x: clamp_to_coord(-(self.x as i128)), y: clamp_to_coord(-(self.y as i128)) }
    }

    /// The direction of this vector with length `DIRECTION_SCALE`, or zero
    /// for the zero vector.
    pub fn normalize_or_zero(self) -> (r: Vec2)
        ensures
            r == normalized(self.x as int, self.y as int),
    {
        if self.x == 0 && self.y == 0 {
            Vec2 { x: 0, y: 0 }
        } else {
            scale_vector(self.x as i64, self.y as i64, DIRECTION_SCALE)
        }
    }
}

/// A circle shape, by its radius in sub-units.
#[derive(Clone, Copy, Debug, PartialEq, Eq, Structural)]
pub struct Circle {
    pub radius: u32,
}

impl Circle {
    pub open spec fn wf(self) -> bool {
        self.radius <= MAX_RADIUS
    }

    pub fn new(radius: u32) -> (r: Circle)
        requires
            radius <= MAX_RADIUS,
        ensures
            r.radius == radius,
            r.wf(),
    {
        Circle { radius }
    }
}

/// How far two circles overlap: the square of the sum of the radii minus the
/// squared distance of the centers. Positive exactly when they collide.
pub open spec fn overlap_of(a: Circle, ac: Vec2, b: Circle, bc: Vec2) -> int {
    (a.radius + b.radius) * (a.radius + b.radius) - len_sq(ac.x - bc.x, ac.y - bc.y)
}

/// Whether two circles overlap (touching is not overlapping).
pub open spec fn circles_collide(a: Circle, ac: Vec2, b: Circle, bc: Vec2) -> bool {
    overlap_of(a, ac, b, bc) > 0
}

/// The push that separates `a` from `b` when the centers differ: the
/// direction from `b`'s center to `a`'s, with length the square root of the
/// overlap.
pub open spec fn push_of(a: Circle, ac: Vec2, b: Circle, bc: Vec2) -> Vec2 {
    scale_to(ac.x - bc.x, ac.y - bc.y, floor_sqrt(overlap_of(a, ac, b, bc)))
}

/// Overlap test of two circles at the given centers. Where the centers
/// coincide the push points along `spread`, which must not be zero.
pub fn collide_circles_along(a: &Circle, ac: Vec2, b: &Circle, bc: Vec2, spread: Vec2) -> (r: (
    bool,
    Vec2,
))
    requires
        a.wf(),
        b.wf(),
        !is_zero_vec(spread),
    ensures
        r.0 == circles_collide(*a, ac, *b, bc),
        !r.0 ==> is_zero_vec(r.1),
        r.0 && ac != bc ==> r.1 == push_of(*a, ac, *b, bc),
        r.0 && ac == bc ==> r.1 == scale_to(
            spread.x as int,
            spread.y as int,
            floor_sqrt(overlap_of(*a, ac, *b, bc)),
        ),
        r.0 ==> !is_zero_vec(r.1),
        r.0 ==> -floor_sqrt(overlap_of(*a, ac, *b, bc)) <= r.1.x <= floor_sqrt(
            overlap_of(*a, ac, *b, bc),
        ),
        r.0 ==> -floor_sqrt(overlap_of(*a, ac, *b, bc)) <= r.1.y <= floor_sqrt(
            overlap_of(*a, ac, *b, bc),
        ),
{
    let radius_sum: u128 = a.radius as u128 + b.radius as u128;
    let dx: i64 = ac.x as i64 - bc.x as i64;
    let dy: i64 = ac.y as i64 - bc.y as i64;
    let distance_squared = length_squared(dx, dy);
    assert(radius_sum * radius_sum <= 0x1000_0000_0000_0000) by (nonlinear_arith)
        requires
            radius_sum <= 0x4000_0000,
    ;
    let radius_sum_squared: u128 = radius_sum * radius_sum;
    proof {
        assert(floor_sqrt(0) == 0) by {
            lemma_floor_sqrt_unique(0, 0);
        }
    }
    if radius_sum_squared <= distance_squared {
        return (false, Vec2 { x: 0, y: 0 });
    }
    let overlap: u128 = radius_sum_squared - distance_squared;
    let m = isqrt(overlap);
    proof {
        assert(is_floor_sqrt(overlap as int, m as int));
        assert(m <= radius_sum) by (nonlinear_arith)
            requires
                m * m <= overlap,
                overlap <= radius_sum * radius_sum,
        ;
        assert(m >= 1) by (nonlinear_arith)
            requires
                overlap < (m + 1) * (m + 1),
                overlap >= 1,
        ;
    }
    if distance_squared == 0 {
        proof {
            assert(ac == bc) by (nonlinear_arith)
                requires
                    dx * dx + dy * dy == 0,
                    dx == ac.x - bc.x,
                    dy == ac.y - bc.y,
            ;
        }
        (true, scale_vector(spread.x as i64, spread.y as i64, m as u32))
    } else {
        (true, scale_vector(dx, dy, m as u32))
    }
}


/// A non-zero direction no longer than `DIRECTION_SCALE` on either axis.
pub open spec fn valid_direction(d: Vec2) -> bool {
    &&& !is_zero_vec(d)
    &&& -(DIRECTION_SCALE as int) <= d.x <= DIRECTION_SCALE
    &&& -(DIRECTION_SCALE as int) <= d.y <= DIRECTION_SCALE
}

/// The direction that the sample `(x, y)` stands for: its own, or the
/// positive x axis for the zero sample.
pub open spec fn sample_direction(x: int, y: int) -> Vec2 {
    if x == 0 && y == 0 {
        Vec2 { x: DIRECTION_SCALE as i32, y: 0 }
    } else {
        normalized(x, y)
    }
}

/// Relies on `rand::random::<i16>`: any value of the type may come back.
#[verifier::external_body]
fn random_i16() -> (r: i16) {
    rand::random::<i16>()
}

/// The direction of `(x, y)` with length `DIRECTION_SCALE`; the zero vector
/// gives the positive x axis, so the result is never zero.
pub fn unit_from_sample(x: i16, y: i16) -> (r: Vec2)
    ensures
        r == sample_direction(x as int, y as int),
        valid_direction(r),
        x != 0 || y != 0 ==> r == normalized(x as int, y as int),
        x == 0 && y == 0 ==> r == (Vec2 { x: DIRECTION_SCALE as i32, y: 0 }),
        !is_zero_vec(r),
        -(DIRECTION_SCALE as int) <= r.x <= DIRECTION_SCALE,
        -(DIRECTION_SCALE as int) <= r.y <= DIRECTION_SCALE,
{
    if x == 0 && y == 0 {
        Vec2 { x: DIRECTION_SCALE as i32, y: 0 }
    } else {
        scale_vector(x as i64, y as i64, DIRECTION_SCALE)
    }
}

/// A random non-zero direction with length `DIRECTION_SCALE`, drawn from a
/// uniform sample of a square around the origin.
pub fn random_unit() -> (r: Vec2)
    ensures
        exists|x: i16, y: i16| r == #[trigger] sample_direction(x as int, y as int),
        valid_direction(r),
        !is_zero_vec(r),
        -(DIRECTION_SCALE as int) <= r.x <= DIRECTION_SCALE,
        -(DIRECTION_SCALE as int) <= r.y <= DIRECTION_SCALE,
{
    let x = random_i16();
    let y = random_i16();
    unit_from_sample(x, y)
}

/// Overlap test of two circles. When they overlap the push moves `a` away
/// from `b` by the square root of the overlap; where the centers coincide its
/// direction is random, and it is still not zero.
pub fn collide_circles(a: &Circle, ac: Vec2, b: &Circle, bc: Vec2) -> (r: (bool, Vec2))
    requires
        a.wf(),
        b.wf(),
    ensures
        r.0 == circles_collide(*a, ac, *b, bc),
        !r.0 ==> is_zero_vec(r.1),
        r.0 && ac != bc ==> r.1 == push_of(*a, ac, *b, bc),
        r.0 ==> !is_zero_vec(r.1),
        r.0 ==> -floor_sqrt(overlap_of(*a, ac, *b, bc)) <= r.1.x <= floor_sqrt(
            overlap_of(*a, ac, *b, bc),
        ),
        r.0 ==> -floor_sqrt(overlap_of(*a, ac, *b, bc)) <= r.1.y <= floor_sqrt(
            overlap_of(*a, ac, *b, bc),
        ),
        ac == bc && a.radius + b.radius > 0 ==> r.0,
        r.0 && ac == bc ==> exists|d: Vec2|
            valid_direction(d) && r.1 == #[trigger] scale_to(
                d.x as int,
                d.y as int,
                floor_sqrt(overlap_of(*a, ac, *b, bc)),
            ),
{
    proof {
        if ac == bc && a.radius + b.radius > 0 {
            let rs = a.radius + b.radius;
            assert(rs * rs > 0) by (nonlinear_arith)
                requires
                    rs > 0,
            ;
            assert(len_sq(0, 0) == 0);
        }
    }
    let spread = if ac == bc {
        random_unit()
    } else {
        Vec2 { x: DIRECTION_SCALE as i32, y: 0 }
    };
    collide_circles_along(a, ac, b, bc, spread)
}

/// Swapping the two circles keeps the collision verdict and negates the push,
/// wherever the centers differ.
pub proof fn lemma_push_antisymmetric(a: Circle, ac: Vec2, b: Circle, bc: Vec2)
    requires
        a.wf(),
        b.wf(),
        ac != bc,
    ensures
        circles_collide(a, ac, b, bc) == circles_collide(b, bc, a, ac),
        circles_collide(a, ac, b, bc) ==> push_of(b, bc, a, ac).x == -push_of(a, ac, b, bc).x,
        circles_collide(a, ac, b, bc) ==> push_of(b, bc, a, ac).y == -push_of(a, ac, b, bc).y,
{
    let dx = ac.x - bc.x;
    let dy = ac.y - bc.y;
    assert(len_sq(-dx, -dy) == len_sq(dx, dy)) by (nonlinear_arith);
    assert(bc.x - ac.x == -dx && bc.y - ac.y == -dy);
    assert(overlap_of(b, bc, a, ac) == overlap_of(a, ac, b, bc));
    if circles_collide(a, ac, b, bc) {
        let o = overlap_of(a, ac, b, bc);
        let m = floor_sqrt(o);
        assert(o < (o + 1) * (o + 1)) by (nonlinear_arith)
            requires
                o >= 1,
        ;
        let w = choose_witness(o);
        assert(is_floor_sqrt(o, m));
        let rs = a.radius + b.radius;
        lemma_sqrt_covers_axis(dx, dy);
        assert(0 <= m <= rs) by (nonlinear_arith)
            requires
                m * m <= o,
                o <= rs * rs,
                m >= 0,
                rs >= 0,
        ;
        let ex = dx * LENGTH_PRECISION;
        let ey = dy * LENGTH_PRECISION;
        assert((-dx) * LENGTH_PRECISION == -ex && (-dy) * LENGTH_PRECISION == -ey) by (nonlinear_arith)
            requires
                ex == dx * LENGTH_PRECISION,
                ey == dy * LENGTH_PRECISION,
        ;
        assert(len_sq(-ex, -ey) == len_sq(ex, ey)) by (nonlinear_arith);
        assert(ex != 0 || ey != 0) by (nonlinear_arith)
            requires
                dx != 0 || dy != 0,
                ex == dx * 65536,
                ey == dy * 65536,
        ;
        let n = len_sq(ex, ey);
        let len = floor_sqrt(n);
        lemma_sqrt_covers_axis(ex, ey);
        lemma_sqrt_covers_axis(ey, ex);
        assert(len_sq(ey, ex) == n);
        assert(is_floor_sqrt(n, len));
        assert(len > 0) by {
            if len == 0 {
                assert(n < 1);
                assert(ex * ex >= 0 && ey * ey >= 0) by (nonlinear_arith);
                assert(ex * ex == 0 && ey * ey == 0);
                assert(ex == 0 && ey == 0) by (nonlinear_arith)
                    requires
                        ex * ex == 0,
                        ey * ey == 0,
                ;
            }
        }
        lemma_scale_axis_bounds(ex, m, len);
        lemma_scale_axis_bounds(ey, m, len);
        assert(scale_axis(--ex, m, len) == scale_axis(ex, m, len));
        assert(scale_axis(--ey, m, len) == scale_axis(ey, m, len));
    }
}

} // verus!
