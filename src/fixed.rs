//! Fixed-point scalars.
//!
//! A scalar is an `i64` counting thousandths of a unit, so `ONE` stands for
//! 1.0. Every stored scalar lies within `[-LIMIT, LIMIT]`; a result that would
//! leave that range saturates at its edge, which keeps every quantity of the
//! kernel finite. Products and quotients round toward zero.
use vstd::prelude::*;

verus! {

/// Raw units in one whole unit.
pub const ONE: i64 = 1000;

/// The largest magnitude of a stored scalar.
pub const LIMIT: i64 = 2_000_000_000;

/// Raw units in one whole unit squared, the divisor of a triple product.
const ONE_SQUARED: i128 = 1_000_000;

pub open spec fn in_range(v: int) -> bool {
    -LIMIT <= v <= LIMIT
}

/// Saturation at the edges of the scalar range.
pub open spec fn clamp(v: int) -> int {
    if v > LIMIT {
        LIMIT as int
    } else if v < -LIMIT {
        -LIMIT
    } else {
        v
    }
}

/// Division rounding toward zero (the divisor is positive).
pub open spec fn tdiv(a: int, d: int) -> int {
    if a >= 0 {
        a / d
    } else {
        -((-a) / d)
    }
}

pub open spec fn abs(v: int) -> int {
    if v >= 0 {
        v
    } else {
        -v
    }
}

/// Saturating sum.
pub open spec fn sum(a: int, b: int) -> int {
    clamp(a + b)
}

/// Saturating difference.
pub open spec fn diff(a: int, b: int) -> int {
    clamp(a - b)
}

/// Fixed-point product of two scalars.
pub open spec fn product(a: int, b: int) -> int {
    clamp(tdiv(a * b, ONE as int))
}

/// Fixed-point product of three scalars, rounded once.
pub open spec fn product3(a: int, b: int, c: int) -> int {
    clamp(tdiv(a * b * c, ONE * ONE))
}

/// `a * b / d` on raw values, rounded once.
pub open spec fn scaled(a: int, b: int, d: int) -> int {
    clamp(tdiv(a * b, d))
}

/// `r` is the integer square root of `n`: the largest integer whose square
/// does not exceed `n`.
pub open spec fn is_root(r: int, n: int) -> bool {
    0 <= r && r * r <= n && n < (r + 1) * (r + 1)
}

/// The integer square root of a non-negative `n`.
pub open spec fn root(n: int) -> int {
    choose|r: int| #[trigger] is_root(r, n)
}

pub proof fn lemma_root_unique(a: int, b: int, n: int)
    requires
        is_root(a, n),
        is_root(b, n),
    ensures
        a == b,
{
    if a < b {
        assert((a + 1) * (a + 1) <= b * b) by (nonlinear_arith)
            requires
                0 <= a + 1 <= b,
        ;
    } else if b < a {
        assert((b + 1) * (b + 1) <= a * a) by (nonlinear_arith)
            requires
                0 <= b + 1 <= a,
        ;
    }
}

/// Any witness of the root is the root.
pub proof fn lemma_root_is(r: int, n: int)
    requires
        is_root(r, n),
    ensures
        root(n) == r,
{
    let c = root(n);
    assert(is_root(c, n));
    lemma_root_unique(c, r, n);
}

/// The root of a square is its base.
pub proof fn lemma_root_of_square(a: int)
    requires
        a >= 0,
    ensures
        root(a * a) == a,
{
    assert(a * a < (a + 1) * (a + 1)) by (nonlinear_arith)
        requires
            a >= 0,
    ;
    lemma_root_is(a, a * a);
}

/// A component never exceeds the root of the sum of squares it is part of.
pub proof fn lemma_le_root(a: int, b: int)
    ensures
        a * a + b * b >= 0,
        is_root(root(a * a + b * b), a * a + b * b),
        abs(a) <= root(a * a + b * b),
        root(a * a + b * b) >= 0,
{
    let n = a * a + b * b;
    assert(a * a >= 0 && b * b >= 0) by (nonlinear_arith);
    lemma_root_exists(n);
    let r = root(n);
    assert(is_root(r, n));
    let m = abs(a);
    assert(m * m == a * a) by (nonlinear_arith)
        requires
            m == a || m == -a,
    ;
    if m > r {
        assert((r + 1) * (r + 1) <= m * m) by (nonlinear_arith)
            requires
                0 <= r + 1 <= m,
        ;
    }
}

/// `|a| / sqrt(n)` rounded toward zero, with the sign of `a` (for `n >= 1`):
/// the integer root of `a * a / n`. `lemma_root_div` gives its defining
/// inequalities.
pub open spec fn root_div(a: int, n: int) -> int {
    let q = root((a * a) / n);
    if a >= 0 {
        q
    } else {
        -q
    }
}

/// `c` is `a / sqrt(n)` rounded toward zero: it has the sign of `a`, and its
/// magnitude `q` is the largest with `q * q * n <= a * a`.
pub open spec fn is_root_quotient(c: int, a: int, n: int) -> bool {
    let q = abs(c);
    &&& a >= 0 ==> c >= 0
    &&& a <= 0 ==> c <= 0
    &&& q * q * n <= a * a
    &&& a * a < (q + 1) * (q + 1) * n
}

/// `root_div` is `a / sqrt(n)` rounded toward zero.
pub proof fn lemma_root_div(a: int, n: int)
    requires
        n >= 1,
    ensures
        is_root_quotient(root_div(a, n), a, n),
{
    assert(a * a >= 0) by (nonlinear_arith);
    let y = (a * a) / n;
    assert(y >= 0 && y * n <= a * a && a * a < (y + 1) * n) by (nonlinear_arith)
        requires
            n >= 1,
            a * a >= 0,
            y == (a * a) / n,
    ;
    lemma_root_exists(y);
    let q = root(y);
    assert(is_root(q, y));
    assert(q * q * n <= a * a) by (nonlinear_arith)
        requires
            q * q <= y,
            y * n <= a * a,
            n >= 1,
    ;
    assert(a * a < (q + 1) * (q + 1) * n) by (nonlinear_arith)
        requires
            y + 1 <= (q + 1) * (q + 1),
            a * a < (y + 1) * n,
            n >= 1,
    ;
    if a == 0 {
        assert(q == 0) by (nonlinear_arith)
            requires
                q >= 0,
                n >= 1,
                q * q * n <= 0,
        ;
    }
}

/// The root quotient is determined by its defining inequalities.
pub proof fn lemma_root_quotient_unique(c: int, a: int, n: int)
    requires
        n >= 1,
        is_root_quotient(c, a, n),
    ensures
        root_div(a, n) == c,
{
    lemma_root_div(a, n);
    let d = root_div(a, n);
    let p = abs(c);
    let q = abs(d);
    if p < q {
        assert((p + 1) * (p + 1) * n <= q * q * n) by (nonlinear_arith)
            requires
                0 <= p + 1 <= q,
                n >= 1,
        ;
    } else if q < p {
        assert((q + 1) * (q + 1) * n <= p * p * n) by (nonlinear_arith)
            requires
                0 <= q + 1 <= p,
                n >= 1,
        ;
    }
    if a == 0 {
        assert(p == 0) by (nonlinear_arith)
            requires
                p >= 0,
                n >= 1,
                p * p * n <= 0,
        ;
    }
}

/// When `x * x <= n`, `x * s / sqrt(n)` is no larger than `s`.
pub proof fn lemma_root_div_bound(x: int, s: int, n: int)
    requires
        n >= 1,
        x * x <= n,
    ensures
        abs(root_div(x * s, n)) <= abs(s),
        (x * s) * (x * s) / n <= s * s,
{
    lemma_root_div(x * s, n);
    let q = abs(root_div(x * s, n));
    assert((x * s) * (x * s) <= n * (s * s)) by (nonlinear_arith)
        requires
            x * x <= n,
    ;
    assert(q * q <= s * s) by (nonlinear_arith)
        requires
            q * q * n <= (x * s) * (x * s),
            (x * s) * (x * s) <= n * (s * s),
            n >= 1,
    ;
    let t = abs(s);
    assert(t * t == s * s) by (nonlinear_arith)
        requires
            t == s || t == -s,
    ;
    if q > t {
        assert(q * q > t * t) by (nonlinear_arith)
            requires
                q > t,
                t >= 0,
        ;
    }
    vstd::arithmetic::div_mod::lemma_div_is_ordered((x * s) * (x * s), n * (s * s), n);
    vstd::arithmetic::div_mod::lemma_div_multiples_vanish(s * s, n);
    assert(n * (s * s) == (s * s) * n) by (nonlinear_arith);
}

/// Every non-negative integer has a root.
pub proof fn lemma_root_exists(n: int)
    requires
        n >= 0,
    ensures
        exists|r: int| is_root(r, n),
    decreases n,
{
    if n == 0 {
        assert(is_root(0, 0));
    } else {
        lemma_root_exists(n - 1);
        let r = choose|r: int| #[trigger] is_root(r, n - 1);
        if n < (r + 1) * (r + 1) {
            assert(is_root(r, n));
        } else {
            assert((r + 1) * (r + 1) == n);
            assert(n < (r + 2) * (r + 2)) by (nonlinear_arith)
                requires
                    (r + 1) * (r + 1) == n,
                    r >= 0,
            ;
            assert(is_root(r + 1, n));
        }
    }
}

/// Rounding toward zero never grows a magnitude, and keeps the sign.
pub proof fn lemma_tdiv_bound(a: int, d: int)
    requires
        d >= 1,
    ensures
        abs(tdiv(a, d)) <= abs(a),
        a >= 0 ==> tdiv(a, d) >= 0,
        a <= 0 ==> tdiv(a, d) <= 0,
{
    if a >= 0 {
        assert(a / d <= a && a / d >= 0) by (nonlinear_arith)
            requires
                a >= 0,
                d >= 1,
        ;
    } else {
        assert((-a) / d <= -a && (-a) / d >= 0) by (nonlinear_arith)
            requires
                -a >= 0,
                d >= 1,
        ;
    }
}

/// Rounding toward zero is monotone in the dividend.
pub proof fn lemma_tdiv_monotone(a: int, b: int, d: int)
    requires
        d >= 1,
        a <= b,
    ensures
        tdiv(a, d) <= tdiv(b, d),
{
    if a >= 0 {
        vstd::arithmetic::div_mod::lemma_div_is_ordered(a, b, d);
    } else if b >= 0 {
        lemma_tdiv_bound(a, d);
        lemma_tdiv_bound(b, d);
    } else {
        vstd::arithmetic::div_mod::lemma_div_is_ordered(-b, -a, d);
    }
}

/// Clamping is monotone.
pub proof fn lemma_clamp_monotone(a: int, b: int)
    requires
        a <= b,
    ensures
        clamp(a) <= clamp(b),
{
}

pub proof fn lemma_product_bound(a: int, b: int, la: int, lb: int)
    requires
        abs(a) <= la,
        abs(b) <= lb,
    ensures
        abs(a * b) <= la * lb,
{
    assert(abs(a * b) == abs(a) * abs(b)) by (nonlinear_arith);
    assert(abs(a) * abs(b) <= la * lb) by (nonlinear_arith)
        requires
            0 <= abs(a) <= la,
            0 <= abs(b) <= lb,
    ;
}

/// Rounds `p / d` toward zero.
fn div_toward_zero(p: i128, d: i128) -> (q: i128)
    requires
        d >= 1,
        -0x7fff_ffff_ffff_ffff_ffff_ffff_ffff_ffff <= p,
    ensures
        q == tdiv(p as int, d as int),
{
    proof {
        lemma_tdiv_bound(p as int, d as int);
    }
    if p >= 0 {
        ((p as u128) / (d as u128)) as i128
    } else {
        let m = (-p) as u128;
        -((m / (d as u128)) as i128)
    }
}

/// Saturates a wide value into the scalar range.
fn clamp_wide(v: i128) -> (r: i64)
    ensures
        r == clamp(v as int),
{
    if v > LIMIT as i128 {
        LIMIT
    } else if v < -(LIMIT as i128) {
        -LIMIT
    } else {
        v as i64
    }
}

/// Saturates a scalar into range.
pub fn saturate(v: i64) -> (r: i64)
    ensures
        r == clamp(v as int),
        in_range(r as int),
{
    if v > LIMIT {
        LIMIT
    } else if v < -LIMIT {
        -LIMIT
    } else {
        v
    }
}

/// Saturating sum of two scalars.
pub fn plus(a: i64, b: i64) -> (r: i64)
    requires
        in_range(a as int),
        in_range(b as int),
    ensures
        r == sum(a as int, b as int),
        in_range(r as int),
{
    clamp_wide(a as i128 + b as i128)
}

/// Saturating difference of two scalars.
pub fn minus(a: i64, b: i64) -> (r: i64)
    requires
        in_range(a as int),
        in_range(b as int),
    ensures
        r == diff(a as int, b as int),
        in_range(r as int),
{
    clamp_wide(a as i128 - b as i128)
}

/// Fixed-point product of two scalars.
pub fn times(a: i64, b: i64) -> (r: i64)
    requires
        in_range(a as int),
        in_range(b as int),
    ensures
        r == product(a as int, b as int),
        in_range(r as int),
{
    proof {
        lemma_product_bound(a as int, b as int, LIMIT as int, LIMIT as int);
    }
    let p = (a as i128) * (b as i128);
    clamp_wide(div_toward_zero(p, ONE as i128))
}

/// Fixed-point product of three scalars, rounded once.
pub fn times3(a: i64, b: i64, c: i64) -> (r: i64)
    requires
        in_range(a as int),
        in_range(b as int),
        in_range(c as int),
    ensures
        r == product3(a as int, b as int, c as int),
        in_range(r as int),
{
    proof {
        let l = LIMIT as int;
        lemma_product_bound(a as int, b as int, l, l);
        lemma_product_bound(a as int * b as int, c as int, l * l, l);
    }
    let p = (a as i128) * (b as i128) * (c as i128);
    clamp_wide(div_toward_zero(p, ONE_SQUARED))
}

/// `a * b / d` on raw values, rounded once; `a` and `b` may reach twice the
/// scalar range, as distances and their differences do.
pub fn mul_div(a: i64, b: i64, d: i64) -> (r: i64)
    requires
        abs(a as int) <= 2 * LIMIT,
        abs(b as int) <= 2 * LIMIT,
        d >= 1,
    ensures
        r == scaled(a as int, b as int, d as int),
        in_range(r as int),
{
    proof {
        let l2: int = 2 * LIMIT;
        lemma_product_bound(a as int, b as int, l2, l2);
        assert(l2 * l2 == 16_000_000_000_000_000_000) by (nonlinear_arith)
            requires
                l2 == 4_000_000_000,
        ;
    }
    let p = (a as i128) * (b as i128);
    clamp_wide(div_toward_zero(p, d as i128))
}

/// `x * s / sqrt(n)` rounded toward zero, computed exactly.
pub fn scale_by_root(x: i64, s: i64, n: u128) -> (r: i64)
    requires
        in_range(x as int),
        in_range(s as int),
        n >= 1,
        x * x <= n,
    ensures
        r == root_div(x * s, n as int),
        is_root_quotient(r as int, x * s, n as int),
        abs(r as int) <= abs(s as int),
{
    proof {
        let l: int = LIMIT as int;
        lemma_product_bound(x as int, s as int, l, l);
        assert(l * l == 4_000_000_000_000_000_000) by (nonlinear_arith)
            requires
                l == 2_000_000_000,
        ;
        lemma_root_div(x * s, n as int);
        lemma_root_div_bound(x as int, s as int, n as int);
    }
    let a = (x as i128) * (s as i128);
    let m: u128 = if a >= 0 {
        a as u128
    } else {
        (-a) as u128
    };
    proof {
        assert(m * m == a * a) by (nonlinear_arith)
            requires
                m == a || m == -a,
        ;
        assert(m * m <= 16_000_000_000_000_000_000 * 1_000_000_000_000_000_000) by (nonlinear_arith)
            requires
                0 <= m <= 4_000_000_000_000_000_000,
        ;
        assert(s * s <= 4_000_000_000_000_000_000) by (nonlinear_arith)
            requires
                in_range(s as int),
        ;
    }
    let y = m * m / n;
    let q = root_of(y);
    if a >= 0 {
        q
    } else {
        -q
    }
}

/// Integer square root by bisection.
pub fn root_of(n: u128) -> (r: i64)
    requires
        n < 0x10_0000_0000_0000_0000_0000,
    ensures
        r == root(n as int),
        is_root(r as int, n as int),
{
    let mut lo: u64 = 0;
    let mut hi: u64 = 0x400_0000_0000;
    while hi - lo > 1
        invariant
            lo < hi <= 0x400_0000_0000,
            lo * lo <= n,
            n < hi * hi,
        decreases hi - lo,
    {
        let mid = lo + (hi - lo) / 2;
        assert(mid * mid <= 0x400_0000_0000 * 0x400_0000_0000) by (nonlinear_arith)
            requires
                mid < 0x400_0000_0000,
        ;
        if (mid as u128) * (mid as u128) <= n {
            lo = mid;
        } else {
            hi = mid;
        }
    }
    proof {
        lemma_root_is(lo as int, n as int);
    }
    lo as i64
}

} // verus!
