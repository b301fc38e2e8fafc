//! Integer helpers shared by the numeric parts of the crate: powers of ten and
//! division that rounds towards negative or positive infinity.

use vstd::prelude::*;

verus! {

/// The number of steps that one unit of data is divided into: values count millionths.
pub const UNIT: i64 = 1_000_000;

/// The number of decimal places that `UNIT` stands for.
pub const UNIT_DIGITS: u32 = 6;

/// `10^e`.
pub open spec fn pow10(e: nat) -> nat
    decreases e,
{
    if e == 0 {
        1
    } else {
        10 * pow10((e - 1) as nat)
    }
}

/// The quotient `a / b` rounded towards positive infinity, for `b > 0`.
pub open spec fn div_ceil(a: int, b: int) -> int {
    -((-a) / b)
}

/// `x` held to the closed interval from `lo` to `hi`; `lo` wins where the interval is empty.
pub open spec fn clip(x: int, lo: int, hi: int) -> int {
    if x < lo {
        lo
    } else if x > hi {
        hi
    } else {
        x
    }
}

/// A power of ten is at least 1.
pub proof fn lemma_pow10_positive(e: nat)
    ensures
        pow10(e) >= 1,
    decreases e,
{
    if e > 0 {
        lemma_pow10_positive((e - 1) as nat);
    }
}

/// A larger exponent gives a power of ten that is not smaller.
pub proof fn lemma_pow10_monotonic(a: nat, b: nat)
    requires
        a <= b,
    ensures
        pow10(a) <= pow10(b),
    decreases b,
{
    if a < b {
        lemma_pow10_monotonic(a, (b - 1) as nat);
        lemma_pow10_positive((b - 1) as nat);
    }
}

/// `10^38` is the largest power of ten below `2^127`.
pub proof fn lemma_pow10_38()
    ensures
        pow10(38) == 100_000_000_000_000_000_000_000_000_000_000_000_000,
{
    reveal_with_fuel(pow10, 39);
}

/// Of two powers of ten the one that is not larger has the exponent that is not larger.
pub proof fn lemma_pow10_exponent_bound(e: nat, limit: nat)
    requires
        pow10(e) <= pow10(limit),
    ensures
        e <= limit,
{
    if e > limit {
        lemma_pow10_monotonic(limit + 1, e);
        lemma_pow10_positive(limit);
    }
}

/// Floor division agrees with the definition by quotient and remainder.
pub proof fn lemma_div_floor_unique(a: int, b: int, q: int)
    requires
        b > 0,
        q * b <= a < q * b + b,
    ensures
        a / b == q,
{
    assert(a == q * b + (a - q * b));
    vstd::arithmetic::div_mod::lemma_fundamental_div_mod_converse_div(a, b, q, a - q * b);
}

/// The floor quotient brackets the dividend.
pub proof fn lemma_div_floor_bounds(a: int, b: int)
    requires
        b > 0,
    ensures
        (a / b) * b <= a < (a / b) * b + b,
{
    vstd::arithmetic::div_mod::lemma_fundamental_div_mod(a, b);
    vstd::arithmetic::div_mod::lemma_mod_bound(a, b);
    assert(b * (a / b) == (a / b) * b) by (nonlinear_arith);
}

/// The ceiling quotient brackets the dividend.
pub proof fn lemma_div_ceil_bounds(a: int, b: int)
    requires
        b > 0,
    ensures
        div_ceil(a, b) * b - b < a <= div_ceil(a, b) * b,
{
    lemma_div_floor_bounds(-a, b);
    let q = (-a) / b;
    assert((-q) * b == -(q * b)) by (nonlinear_arith);
}

/// A quotient is bounded as its dividend is, for a divisor of 1 or more.
pub proof fn lemma_div_bounded(a: int, b: int, m: int)
    requires
        b >= 1,
        -m <= a <= m,
    ensures
        -m <= a / b <= m,
{
    lemma_div_floor_bounds(a, b);
    let q = a / b;
    assert(-m <= q <= m) by (nonlinear_arith)
        requires
            q * b <= a < q * b + b,
            b >= 1,
            -m <= a <= m,
    ;
}

/// A quotient is bounded by `m` where its dividend is bounded by `m` times the divisor.
pub proof fn lemma_div_scaled(a: int, b: int, m: int)
    requires
        b >= 1,
        -(m * b) <= a <= m * b,
    ensures
        -m <= a / b <= m,
{
    lemma_div_floor_bounds(a, b);
    let q = a / b;
    assert(-m <= q <= m) by (nonlinear_arith)
        requires
            q * b <= a < q * b + b,
            b >= 1,
            -(m * b) <= a <= m * b,
    ;
}

/// `10^e` as a machine number.
pub fn pow10_exec(e: u32) -> (r: u128)
    requires
        e <= 38,
    ensures
        r == pow10(e as nat),
{
    let mut r: u128 = 1;
    let mut i: u32 = 0;
    while i < e
        invariant
            i <= e <= 38,
            r == pow10(i as nat),
        decreases e - i,
    {
        proof {
            lemma_pow10_monotonic((i + 1) as nat, 38);
            lemma_pow10_38();
        }
        r = r * 10;
        i = i + 1;
    }
    r
}

/// Division rounding towards negative infinity.
pub fn div_floor_exec(a: i128, b: i128) -> (q: i128)
    requires
        b > 0,
    ensures
        q == a / b,
{
    if a >= 0 {
        a / b
    } else {
        let t: i128 = -(a + 1);
        let u: i128 = t / b;
        proof {
            lemma_div_floor_bounds(t as int, b as int);
            let q = -(u as int) - 1;
            assert(q * b == -(u * b) - b) by (nonlinear_arith)
                requires
                    q == -(u as int) - 1,
            ;
            lemma_div_floor_unique(a as int, b as int, q);
            assert(u <= t) by (nonlinear_arith)
                requires
                    u * b <= t,
                    b >= 1,
                    t >= 0,
                    u >= 0,
            ;
        }
        -u - 1
    }
}

/// `t * a / k` rounded down, worked out without a product that leaves the machine's
/// numbers.
pub fn mul_div_floor(t: i128, a: i128, k: i128) -> (r: i128)
    requires
        0 <= t <= 0x100_0000_0000_0000_0000_0000_0000,
        0 < k <= 0x1000_0000_0000_0000,
        -k <= a <= k,
    ensures
        r == (t * a) / (k as int),
        -t <= r <= t,
{
    let whole: i128 = t / k;
    let rest: i128 = t % k;
    proof {
        lemma_div_floor_bounds(t as int, k as int);
        vstd::arithmetic::div_mod::lemma_fundamental_div_mod(t as int, k as int);
        assert(-t <= whole * a <= t) by (nonlinear_arith)
            requires
                whole * k <= t,
                0 <= whole,
                0 < k,
                -k <= a <= k,
        ;
        assert(-0x100_0000_0000_0000_0000_0000_0000_0000 <= rest * a
            <= 0x100_0000_0000_0000_0000_0000_0000_0000) by (nonlinear_arith)
            requires
                0 <= rest < k,
                k <= 0x1000_0000_0000_0000,
                -k <= a <= k,
        ;
        assert(t * a == rest * a + (whole * a) * k) by (nonlinear_arith)
            requires
                t == k * whole + rest,
        ;
        vstd::arithmetic::div_mod::lemma_hoist_over_denominator(
            rest * a,
            whole * a,
            k as nat,
        );
        assert(-(t * k) <= t * a <= t * k) by (nonlinear_arith)
            requires
                0 <= t,
                -k <= a <= k,
        ;
        lemma_div_scaled(t * a, k as int, t as int);
        assert(-(k * k) <= rest * a <= k * k) by (nonlinear_arith)
            requires
                0 <= rest < k,
                -k <= a <= k,
        ;
        lemma_div_scaled(rest * a, k as int, k as int);
    }
    whole * a + div_floor_exec(rest * a, k)
}

/// Division rounding towards positive infinity.
pub fn div_ceil_exec(a: i128, b: i128) -> (q: i128)
    requires
        b > 0,
        a > i128::MIN,
    ensures
        q == div_ceil(a as int, b as int),
{
    let f: i128 = div_floor_exec(-a, b);
    proof {
        lemma_div_floor_bounds(-(a as int), b as int);
        assert(-(a as int) / (b as int) > i128::MIN) by (nonlinear_arith)
            requires
                (-(a as int) / (b as int)) * b + b > -(a as int),
                b >= 1,
                -(a as int) >= -i128::MAX,
        ;
    }
    -f
}

} // verus!
