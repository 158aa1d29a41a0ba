//! Fixed-point 2-D vectors and the normalize-or-zero arithmetic the
//! steering rules are built on. Components are integers in milli-units:
//! 1000 stands for 1.0.
use vstd::prelude::*;

verus! {

/// One whole unit in the fixed-point encoding.
pub const UNIT: i64 = 1000;

/// Magnitude bound accepted by `normalize_or_zero`.
pub const NORM_IN_LIMIT: i64 = 1_000_000_000_000_000_000;

/// Magnitude bound accepted by `addv` and `subv`.
pub const ADD_LIMIT: i64 = 4_000_000_000_000_000_000;

/// Saturation bound for accumulated desired-direction vectors.
pub const DES_LIMIT: i64 = 1_000_000_000;

/// A 2-D vector in fixed-point milli-units.
#[derive(Clone, Copy, PartialEq, Eq, Structural, Debug)]
pub struct V2 {
    pub x: i64,
    pub y: i64,
}

impl V2 {
    /// The zero vector.
    pub open spec fn zero_spec() -> V2 {
        V2 { x: 0, y: 0 }
    }

    pub open spec fn is_zero(self) -> bool {
        self.x == 0 && self.y == 0
    }

    pub fn zero() -> (r: V2)
        ensures
            r == V2::zero_spec(),
    {
        V2 { x: 0, y: 0 }
    }
}

/// Both components of `v` have magnitude at most `m`.
pub open spec fn within(v: V2, m: int) -> bool {
    -m <= v.x <= m && -m <= v.y <= m
}

/// Division rounding toward zero, for a positive divisor; this is what the
/// executable `/` on magnitudes computes once signs are factored out.
pub open spec fn tdiv(a: int, b: int) -> int {
    if a >= 0 {
        a / b
    } else {
        -((-a) / b)
    }
}

/// `r` is the integer square root of `n`, rounded down.
pub open spec fn is_sqrt_floor(n: int, r: int) -> bool {
    0 <= r && r * r <= n && n < (r + 1) * (r + 1)
}

/// The integer square root of `n`, rounded down.
pub open spec fn sqrt_floor(n: int) -> int {
    choose|r: int| is_sqrt_floor(n, r)
}

/// Every nonnegative integer has a rounded-down square root.
pub proof fn lemma_sqrt_floor_exists(n: int)
    requires
        0 <= n,
    ensures
        is_sqrt_floor(n, sqrt_floor(n)),
    decreases n,
{
    if n == 0 {
        assert(is_sqrt_floor(0, 0));
        assert(exists|r: int| is_sqrt_floor(n, r));
    } else {
        lemma_sqrt_floor_exists(n - 1);
        let r = sqrt_floor(n - 1);
        if n < (r + 1) * (r + 1) {
            assert(is_sqrt_floor(n, r));
        } else {
            assert(is_sqrt_floor(n, r + 1)) by (nonlinear_arith)
                requires
                    0 <= r,
                    (r + 1) * (r + 1) <= n,
                    n - 1 < (r + 1) * (r + 1),
            ;
        }
        assert(exists|q: int| is_sqrt_floor(n, q));
    }
}

/// The rounded-down square root is unique.
pub proof fn lemma_sqrt_floor_unique(n: int, r: int)
    requires
        0 <= n,
        is_sqrt_floor(n, r),
    ensures
        r == sqrt_floor(n),
{
    lemma_sqrt_floor_exists(n);
    let q = sqrt_floor(n);
    if r < q {
        assert((r + 1) * (r + 1) <= q * q) by (nonlinear_arith)
            requires
                0 <= r < q,
        ;
        assert(false);
    } else if q < r {
        assert((q + 1) * (q + 1) <= r * r) by (nonlinear_arith)
            requires
                0 <= q < r,
        ;
        assert(false);
    }
}

/// A component is never longer than the whole vector: if `x * x <= n` then
/// `|x| <= sqrt_floor(n)`.
pub proof fn lemma_abs_le_sqrt(x: int, n: int)
    requires
        0 <= n,
        x * x <= n,
    ensures
        -sqrt_floor(n) <= x <= sqrt_floor(n),
{
    lemma_sqrt_floor_exists(n);
    let q = sqrt_floor(n);
    if x > q {
        assert((q + 1) * (q + 1) <= x * x) by (nonlinear_arith)
            requires
                0 <= q < x,
        ;
        assert(false);
    }
    if x < -q {
        assert((q + 1) * (q + 1) <= x * x) by (nonlinear_arith)
            requires
                0 <= q,
                x < -q,
        ;
        assert(false);
    }
}

/// Integer square root, rounded down.
pub fn isqrt(n: u128) -> (r: u64)
    ensures
        is_sqrt_floor(n as int, r as int),
        r as int == sqrt_floor(n as int),
{
    let mut lo: u128 = 0;
    let mut hi: u128 = 0x1_0000_0000_0000_0000;
    proof {
        assert((0x1_0000_0000_0000_0000 as int) * (0x1_0000_0000_0000_0000 as int)
            == 0x1_0000_0000_0000_0000_0000_0000_0000_0000 as int) by (nonlinear_arith);
    }
    while lo + 1 < hi
        invariant
            lo < hi <= 0x1_0000_0000_0000_0000,
            (lo as int) * (lo as int) <= n as int,
            (n as int) < (hi as int) * (hi as int),
        decreases hi - lo,
    {
        let mid = lo + (hi - lo) / 2;
        proof {
            assert((mid as int) * (mid as int)
                < 0x1_0000_0000_0000_0000_0000_0000_0000_0000 as int) by (nonlinear_arith)
                requires
                    0 <= mid < 0x1_0000_0000_0000_0000,
            ;
        }
        if mid * mid <= n {
            lo = mid;
        } else {
            hi = mid;
        }
    }
    proof {
        lemma_sqrt_floor_unique(n as int, lo as int);
    }
    lo as u64
}

/// The squared length of the straight line between `a` and `b`.
pub open spec fn spec_dist_sq(a: V2, b: V2) -> int {
    (a.x - b.x) * (a.x - b.x) + (a.y - b.y) * (a.y - b.y)
}

/// Squared distance between two points.
pub fn dist_sq(a: V2, b: V2) -> (d: i64)
    requires
        within(a, 1_000_000_000),
        within(b, 1_000_000_000),
    ensures
        d as int == spec_dist_sq(a, b),
        d >= 0,
{
    let dx = a.x - b.x;
    let dy = a.y - b.y;
    proof {
        assert(0 <= dx * dx <= 4_000_000_000_000_000_000) by (nonlinear_arith)
            requires
                -2_000_000_000 <= dx <= 2_000_000_000,
        ;
        assert(0 <= dy * dy <= 4_000_000_000_000_000_000) by (nonlinear_arith)
            requires
                -2_000_000_000 <= dy <= 2_000_000_000,
        ;
    }
    dx * dx + dy * dy
}

/// The rounded-down length of the normalization denominator.
pub open spec fn norm_len_i(x: int, y: int) -> int {
    sqrt_floor(x * x + y * y)
}

/// Normalize-or-zero over exact integers: the zero vector stays zero, any
/// other vector is scaled so its components are milli-units of a unit
/// vector, rounded toward zero.
pub open spec fn norm_i(x: int, y: int) -> V2 {
    if x == 0 && y == 0 {
        V2 { x: 0, y: 0 }
    } else {
        let l = norm_len_i(x, y);
        V2 { x: tdiv(x * 1000, l) as i64, y: tdiv(y * 1000, l) as i64 }
    }
}

/// Normalize-or-zero of a stored vector.
pub open spec fn spec_norm(v: V2) -> V2 {
    norm_i(v.x as int, v.y as int)
}

/// What normalization yields: components within one unit, exact zero iff
/// the input was zero, and the cast in `norm_i` never truncates.
pub proof fn lemma_norm_props(x: int, y: int)
    requires
        -1_000_000_000_000_000_000 <= x <= 1_000_000_000_000_000_000,
        -1_000_000_000_000_000_000 <= y <= 1_000_000_000_000_000_000,
    ensures
        within(norm_i(x, y), 1000),
        x == 0 && y == 0 <==> norm_i(x, y) == V2::zero_spec(),
        !(x == 0 && y == 0) ==> norm_i(x, y).x as int == tdiv(x * 1000, norm_len_i(x, y)),
        !(x == 0 && y == 0) ==> norm_i(x, y).y as int == tdiv(y * 1000, norm_len_i(x, y)),
{
    if x == 0 && y == 0 {
    } else {
        let n = x * x + y * y;
        assert(n >= 1 && x * x <= n && y * y <= n) by (nonlinear_arith)
            requires
                !(x == 0 && y == 0),
                n == x * x + y * y,
        ;
        lemma_sqrt_floor_exists(n);
        let l = norm_len_i(x, y);
        assert(l >= 1);
        lemma_abs_le_sqrt(x, n);
        lemma_abs_le_sqrt(y, n);
        let qx = tdiv(x * 1000, l);
        let qy = tdiv(y * 1000, l);
        assert(-1000 <= qx <= 1000 && -1000 <= qy <= 1000
            && (qx == 0 ==> -l < x * 1000 < l) && (qy == 0 ==> -l < y * 1000 < l))
            by (nonlinear_arith)
            requires
                1 <= l,
                -l <= x <= l,
                -l <= y <= l,
                qx == tdiv(x * 1000, l),
                qy == tdiv(y * 1000, l),
        ;
        if qx == 0 && qy == 0 {
            // both components under a thousandth of the length: the squared
            // length would undershoot itself
            assert(false) by (nonlinear_arith)
                requires
                    1 <= l,
                    -l < x * 1000 < l,
                    -l < y * 1000 < l,
                    l * l <= x * x + y * y,
            ;
        }
        assert(norm_i(x, y).x as int == qx && norm_i(x, y).y as int == qy);
    }
}

/// Normalizing the zero vector yields the zero vector, never an undefined
/// direction.
pub proof fn lemma_normalize_zero()
    ensures
        spec_norm(V2 { x: 0, y: 0 }) == V2::zero_spec(),
{
}

/// A normalized vector still points away from the origin the way its input
/// did: its dot product with the input is positive.
pub proof fn lemma_norm_points_along(x: int, y: int)
    requires
        -1_000_000_000_000_000_000 <= x <= 1_000_000_000_000_000_000,
        -1_000_000_000_000_000_000 <= y <= 1_000_000_000_000_000_000,
        !(x == 0 && y == 0),
    ensures
        norm_i(x, y).x * x + norm_i(x, y).y * y > 0,
{
    lemma_norm_props(x, y);
    let n = x * x + y * y;
    assert(n >= 1) by (nonlinear_arith)
        requires
            !(x == 0 && y == 0),
            n == x * x + y * y,
    ;
    lemma_sqrt_floor_exists(n);
    let l = norm_len_i(x, y);
    assert(l >= 1) by (nonlinear_arith)
        requires
            0 <= l,
            n < (l + 1) * (l + 1),
            l * l <= n,
            n >= 1,
    ;
    let qx = norm_i(x, y).x as int;
    let qy = norm_i(x, y).y as int;
    assert(qx * x >= 0 && qy * y >= 0 && (qx != 0 ==> qx * x >= 1) && (qy != 0 ==> qy * y >= 1))
        by (nonlinear_arith)
        requires
            1 <= l,
            qx == tdiv(x * 1000, l),
            qy == tdiv(y * 1000, l),
    ;
}

fn abs_mag(a: i64) -> (r: u64)
    requires
        a > i64::MIN,
    ensures
        a >= 0 ==> r as int == a as int,
        a < 0 ==> r as int == -(a as int),
{
    if a < 0 {
        (-a) as u64
    } else {
        a as u64
    }
}

/// Normalize a vector, or return zero if it is the zero vector. The result
/// never divides by zero and never exceeds one unit per component.
pub fn normalize_or_zero(v: V2) -> (r: V2)
    requires
        within(v, NORM_IN_LIMIT as int),
    ensures
        r == spec_norm(v),
        within(r, 1000),
        v.is_zero() <==> r.is_zero(),
{
    proof {
        lemma_norm_props(v.x as int, v.y as int);
    }
    if v.x == 0 && v.y == 0 {
        return V2 { x: 0, y: 0 };
    }
    let ax = abs_mag(v.x);
    let ay = abs_mag(v.y);
    proof {
        assert((ax as int) * (ax as int) <= 1_000_000_000_000_000_000_000_000_000_000_000_000
            && (ay as int) * (ay as int) <= 1_000_000_000_000_000_000_000_000_000_000_000_000)
            by (nonlinear_arith)
            requires
                0 <= ax as int <= 1_000_000_000_000_000_000,
                0 <= ay as int <= 1_000_000_000_000_000_000,
        ;
    }
    let nsq: u128 = (ax as u128) * (ax as u128) + (ay as u128) * (ay as u128);
    proof {
        assert((ax as int) * (ax as int) == (v.x as int) * (v.x as int)
            && (ay as int) * (ay as int) == (v.y as int) * (v.y as int)) by (nonlinear_arith)
            requires
                (ax as int == v.x as int || ax as int == -(v.x as int)),
                (ay as int == v.y as int || ay as int == -(v.y as int)),
        ;
    }
    let l = isqrt(nsq);
    proof {
        assert(nsq as int >= 1 && (ax as int) * (ax as int) <= nsq as int
            && (ay as int) * (ay as int) <= nsq as int) by (nonlinear_arith)
            requires
                nsq as int == (ax as int) * (ax as int) + (ay as int) * (ay as int),
                ax as int >= 1 || ay as int >= 1,
        ;
        assert(l as int >= 1) by (nonlinear_arith)
            requires
                is_sqrt_floor(nsq as int, l as int),
                nsq as int >= 1,
        ;
        lemma_abs_le_sqrt(ax as int, nsq as int);
        lemma_abs_le_sqrt(ay as int, nsq as int);
    }
    let qx: u64 = (((ax as u128) * 1000) / (l as u128)) as u64;
    let qy: u64 = (((ay as u128) * 1000) / (l as u128)) as u64;
    proof {
        assert((ax as int) * 1000 / (l as int) <= 1000 && (ay as int) * 1000 / (l as int) <= 1000
            && (ax as int) * 1000 / (l as int) >= 0 && (ay as int) * 1000 / (l as int) >= 0)
            by (nonlinear_arith)
            requires
                1 <= l as int,
                0 <= ax as int <= l as int,
                0 <= ay as int <= l as int,
        ;
    }
    let rx: i64 = if v.x < 0 { -(qx as i64) } else { qx as i64 };
    let ry: i64 = if v.y < 0 { -(qy as i64) } else { qy as i64 };
    V2 { x: rx, y: ry }
}

/// Clamp to the band `[-m, m]`.
pub open spec fn clamp_i(a: int, m: int) -> int {
    if a > m {
        m
    } else if a < -m {
        -m
    } else {
        a
    }
}

/// Componentwise vector sum.
pub open spec fn spec_add(a: V2, b: V2) -> V2 {
    V2 { x: (a.x + b.x) as i64, y: (a.y + b.y) as i64 }
}

/// Componentwise vector difference.
pub open spec fn spec_sub(a: V2, b: V2) -> V2 {
    V2 { x: (a.x - b.x) as i64, y: (a.y - b.y) as i64 }
}

pub fn addv(a: V2, b: V2) -> (r: V2)
    requires
        within(a, ADD_LIMIT as int),
        within(b, ADD_LIMIT as int),
    ensures
        r == spec_add(a, b),
        r.x as int == a.x + b.x,
        r.y as int == a.y + b.y,
{
    V2 { x: a.x + b.x, y: a.y + b.y }
}

pub fn subv(a: V2, b: V2) -> (r: V2)
    requires
        within(a, ADD_LIMIT as int),
        within(b, ADD_LIMIT as int),
    ensures
        r == spec_sub(a, b),
        r.x as int == a.x - b.x,
        r.y as int == a.y - b.y,
{
    V2 { x: a.x - b.x, y: a.y - b.y }
}

/// Componentwise negation.
pub open spec fn spec_neg(v: V2) -> V2 {
    V2 { x: (-v.x) as i64, y: (-v.y) as i64 }
}

pub fn negv(v: V2) -> (r: V2)
    requires
        within(v, ADD_LIMIT as int),
    ensures
        r == spec_neg(v),
        r.x as int == -(v.x as int),
        r.y as int == -(v.y as int),
{
    V2 { x: -v.x, y: -v.y }
}

/// Scale a unit-box vector by a fixed-point weight: `w` milli-units of
/// weight applied to each component, rounded toward zero.
pub open spec fn spec_scale(w: int, v: V2) -> V2 {
    V2 { x: tdiv(w * v.x, 1000) as i64, y: tdiv(w * v.y, 1000) as i64 }
}

pub fn scale_milli(w: i64, v: V2) -> (r: V2)
    requires
        0 <= w <= 1_000_000_000_000,
        within(v, 1000),
    ensures
        r == spec_scale(w as int, v),
        r.x as int == tdiv(w * v.x, 1000),
        r.y as int == tdiv(w * v.y, 1000),
        within(r, w as int),
{
    let ax = if v.x < 0 { -v.x } else { v.x };
    let ay = if v.y < 0 { -v.y } else { v.y };
    proof {
        assert(0 <= w * ax <= w * 1000 && 0 <= w * ay <= w * 1000) by (nonlinear_arith)
            requires
                0 <= w,
                0 <= ax <= 1000,
                0 <= ay <= 1000,
        ;
        assert(w * ax / 1000 <= w && w * ay / 1000 <= w) by (nonlinear_arith)
            requires
                0 <= w * ax <= w * 1000,
                0 <= w * ay <= w * 1000,
                0 <= w,
        ;
        assert(v.x < 0 ==> w * ax == -(w * v.x)) by (nonlinear_arith)
            requires
                ax == if v.x < 0 { -v.x as int } else { v.x as int },
        ;
        assert(v.y < 0 ==> w * ay == -(w * v.y)) by (nonlinear_arith)
            requires
                ay == if v.y < 0 { -v.y as int } else { v.y as int },
        ;
    }
    let qx = w * ax / 1000;
    let qy = w * ay / 1000;
    let rx = if v.x < 0 { -qx } else { qx };
    let ry = if v.y < 0 { -qy } else { qy };
    V2 { x: rx, y: ry }
}

/// Add a bounded steering contribution into an accumulated desired
/// direction, saturating at `DES_LIMIT` so the accumulator stays finite no
/// matter how often contributions arrive.
pub open spec fn sat_add_des(d: V2, c: V2) -> V2 {
    V2 {
        x: clamp_i(d.x + c.x, DES_LIMIT as int) as i64,
        y: clamp_i(d.y + c.y, DES_LIMIT as int) as i64,
    }
}

pub fn add_desired(d: V2, c: V2) -> (r: V2)
    requires
        within(d, DES_LIMIT as int),
        within(c, DES_LIMIT as int),
    ensures
        r == sat_add_des(d, c),
        within(r, DES_LIMIT as int),
{
    let sx = d.x + c.x;
    let sy = d.y + c.y;
    let rx = if sx > DES_LIMIT {
        DES_LIMIT
    } else if sx < -DES_LIMIT {
        -DES_LIMIT
    } else {
        sx
    };
    let ry = if sy > DES_LIMIT {
        DES_LIMIT
    } else if sy < -DES_LIMIT {
        -DES_LIMIT
    } else {
        sy
    };
    V2 { x: rx, y: ry }
}

} // verus!
