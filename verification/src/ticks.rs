//! Round step sizes for axis labels, and the ticks they give over a visible range.

use vstd::prelude::*;
use crate::arith::{pow10, pow10_exec, clip, div_ceil, div_floor_exec, div_ceil_exec, lemma_pow10_positive, lemma_pow10_monotonic, lemma_pow10_exponent_bound, lemma_div_floor_bounds, lemma_div_ceil_bounds, UNIT_DIGITS};

verus! {

/// The largest numerator and denominator that `nice_num` takes: `10^36`.
pub const NICE_LIMIT: u128 = 1_000_000_000_000_000_000_000_000_000_000_000_000;

/// The number `digit * 10^exp`.
#[derive(Clone, Copy, Debug, PartialEq, Eq, Structural)]
pub struct NiceNumber {
    pub digit: u8,
    pub exp: i32,
}

/// For `num >= den > 0`, the exponent `e >= 0` with `10^e <= num / den < 10^(e + 1)`.
pub open spec fn decade_up(num: nat, den: nat) -> nat
    recommends
        num >= den > 0,
    decreases num - den,
{
    if den == 0 || num < 10 * den {
        0
    } else {
        1 + decade_up(num, 10 * den)
    }
}

/// For `0 < num < den`, the exponent `k >= 1` with `10^(-k) <= num / den < 10^(1 - k)`.
pub open spec fn decade_down(num: nat, den: nat) -> nat
    recommends
        0 < num < den,
    decreases den - num,
{
    if num == 0 || 10 * num >= den {
        1
    } else {
        1 + decade_down(10 * num, den)
    }
}

/// `floor(log10(num / den))` for a positive fraction.
pub open spec fn floor_log10(num: nat, den: nat) -> int {
    if num >= den {
        decade_up(num, den) as int
    } else {
        -(decade_down(num, den) as int)
    }
}

/// The fraction `num / den` divided by `10^e`, as numerator and denominator.
pub open spec fn leading_fraction(num: nat, den: nat, e: int) -> (nat, nat) {
    if e >= 0 {
        (num, den * pow10(e as nat))
    } else {
        (num * pow10((-e) as nat), den)
    }
}

/// The round digit for a leading fraction `n / d` between 1 and 10.
pub open spec fn nice_digit(n: nat, d: nat, round: bool) -> int {
    if round {
        if 2 * n < 3 * d {
            1
        } else if n < 3 * d {
            2
        } else if n < 7 * d {
            5
        } else {
            10
        }
    } else {
        if n < d {
            1
        } else if n < 2 * d {
            2
        } else if n < 5 * d {
            5
        } else {
            10
        }
    }
}

/// What `nice_num` returns for the fraction `num / den`.
pub open spec fn nice_num_spec(num: nat, den: nat, round: bool) -> NiceNumber {
    let e = floor_log10(num, den);
    let f = leading_fraction(num, den, e);
    NiceNumber { digit: nice_digit(f.0, f.1, round) as u8, exp: e as i32 }
}

/// `decade_up` is the exponent of the power of ten just below the fraction.
pub proof fn lemma_decade_up(num: nat, den: nat)
    requires
        num >= den > 0,
    ensures
        den * pow10(decade_up(num, den)) <= num < den * pow10(decade_up(num, den) + 1),
    decreases num - den,
{
    if num < 10 * den {
        assert(decade_up(num, den) == 0);
        assert(pow10(0) == 1);
        assert(pow10(1) == 10) by {
            reveal_with_fuel(pow10, 2);
        }
        assert(den * pow10(0) == den);
        assert(den * pow10(1) == 10 * den);
    } else {
        lemma_decade_up(num, 10 * den);
        let e = decade_up(num, 10 * den);
        assert(decade_up(num, den) == e + 1);
        assert(pow10(e + 1) == 10 * pow10(e));
        assert(pow10(e + 2) == 10 * pow10(e + 1));
        assert((10 * den) * pow10(e) == den * pow10(e + 1)) by (nonlinear_arith)
            requires
                pow10(e + 1) == 10 * pow10(e),
        ;
        assert((10 * den) * pow10(e + 1) == den * pow10(e + 2)) by (nonlinear_arith)
            requires
                pow10(e + 2) == 10 * pow10(e + 1),
        ;
    }
}

/// `decade_down` is the exponent of the power of ten that lifts the fraction to 1 or more.
pub proof fn lemma_decade_down(num: nat, den: nat)
    requires
        0 < num < den,
    ensures
        decade_down(num, den) >= 1,
        num * pow10((decade_down(num, den) - 1) as nat) < den <= num * pow10(decade_down(num, den)),
    decreases den - num,
{
    if 10 * num >= den {
        assert(decade_down(num, den) == 1);
        assert(pow10(0) == 1);
        assert(pow10(1) == 10) by {
            reveal_with_fuel(pow10, 2);
        }
        assert(num * pow10(0) == num);
        assert(num * pow10(1) == 10 * num);
    } else {
        lemma_decade_down(10 * num, den);
        let k = decade_down(10 * num, den);
        assert(decade_down(num, den) == k + 1);
        assert(pow10(k) == 10 * pow10((k - 1) as nat));
        assert(pow10(k + 1) == 10 * pow10(k));
        assert((10 * num) * pow10((k - 1) as nat) == num * pow10(k)) by (nonlinear_arith)
            requires
                pow10(k) == 10 * pow10((k - 1) as nat),
        ;
        assert((10 * num) * pow10(k) == num * pow10(k + 1)) by (nonlinear_arith)
            requires
                pow10(k + 1) == 10 * pow10(k),
        ;
    }
}

/// `10^36` is the limit of `nice_num`.
pub proof fn lemma_nice_limit()
    ensures
        pow10(36) == NICE_LIMIT,
{
    reveal_with_fuel(pow10, 37);
}

/// The exponent of a fraction within the limit lies between -37 and 36.
pub proof fn lemma_floor_log10_range(num: nat, den: nat)
    requires
        0 < num <= NICE_LIMIT,
        0 < den <= NICE_LIMIT,
    ensures
        -37 <= floor_log10(num, den) <= 36,
{
    lemma_nice_limit();
    if num >= den {
        lemma_decade_up(num, den);
        let e = decade_up(num, den);
        assert(pow10(e) <= den * pow10(e)) by (nonlinear_arith)
            requires
                den >= 1,
        ;
        lemma_pow10_exponent_bound(e, 36);
    } else {
        lemma_decade_down(num, den);
        let k = (decade_down(num, den) - 1) as nat;
        assert(pow10(k) <= num * pow10(k)) by (nonlinear_arith)
            requires
                num >= 1,
        ;
        lemma_pow10_exponent_bound(k, 36);
    }
}

/// The round number for a positive fraction is one of the digits 1, 2, 5 and 10
/// times the power of ten just below the fraction: with `e` the exponent of the result,
/// `10^e <= num / den < 10^(e + 1)`. Without rounding the digit 1 does not occur.
pub proof fn lemma_nice_num_form(num: nat, den: nat, round: bool)
    requires
        0 < num <= NICE_LIMIT,
        0 < den <= NICE_LIMIT,
    ensures
        ({
            let r = nice_num_spec(num, den, round);
            let e = r.exp as int;
            &&& r.digit == 1 || r.digit == 2 || r.digit == 5 || r.digit == 10
            &&& !round ==> r.digit != 1
            &&& e == floor_log10(num, den)
            &&& -37 <= e <= 36
            &&& e >= 0 ==> den * pow10(e as nat) <= num < den * pow10((e + 1) as nat)
            &&& e < 0 ==> num * pow10((-e - 1) as nat) < den <= num * pow10((-e) as nat)
        }),
{
    lemma_floor_log10_range(num, den);
    if num >= den {
        lemma_decade_up(num, den);
    } else {
        lemma_decade_down(num, den);
    }
}

/// Ten times the numerator and ten times the denominator give the same exponent.
proof fn lemma_decade_up_scale(num: nat, den: nat)
    requires
        num >= den > 0,
    ensures
        decade_up(10 * num, 10 * den) == decade_up(num, den),
    decreases num - den,
{
    if num >= 10 * den {
        lemma_decade_up_scale(num, 10 * den);
    }
}

/// A larger numerator gives an exponent that is not smaller.
proof fn lemma_decade_up_monotonic(a: nat, b: nat, den: nat)
    requires
        0 < den <= a <= b,
    ensures
        decade_up(a, den) <= decade_up(b, den),
    decreases b - den,
{
    if a >= 10 * den {
        lemma_decade_up_monotonic(a, b, 10 * den);
    }
}

/// A larger numerator below the denominator needs no more powers of ten to reach it.
proof fn lemma_decade_down_monotonic(a: nat, b: nat, den: nat)
    requires
        0 < a <= b < den,
    ensures
        decade_down(a, den) >= decade_down(b, den) >= 1,
    decreases den - a,
{
    if 10 * b < den {
        lemma_decade_down_monotonic(10 * a, 10 * b, den);
    }
}

/// The round number of ten times a fraction is ten times the round number of the
/// fraction: the same digit, and the exponent one higher.
pub proof fn lemma_nice_num_scales(num: nat, den: nat, round: bool)
    requires
        0 < num,
        10 * num <= NICE_LIMIT,
        0 < den <= NICE_LIMIT,
    ensures
        nice_num_spec(10 * num, den, round).digit == nice_num_spec(num, den, round).digit,
        nice_num_spec(10 * num, den, round).exp == nice_num_spec(num, den, round).exp + 1,
{
    lemma_floor_log10_range(num, den);
    lemma_floor_log10_range(10 * num, den);
    let e = floor_log10(num, den);
    if num >= den {
        lemma_decade_up_scale(num, den);
        assert(floor_log10(10 * num, den) == e + 1);
        let p = pow10(e as nat);
        assert(pow10((e + 1) as nat) == 10 * p);
        assert(den * pow10((e + 1) as nat) == 10 * (den * p)) by (nonlinear_arith)
            requires
                pow10((e + 1) as nat) == 10 * p,
        ;
        assert(nice_digit(10 * num, 10 * (den * p), round) == nice_digit(num, den * p, round));
    } else if 10 * num >= den {
        assert(floor_log10(10 * num, den) == 0);
        assert(e == -1);
        assert(pow10(0) == 1);
        assert(pow10(1) == 10) by {
            reveal_with_fuel(pow10, 2);
        }
        assert(den * pow10(0) == den);
        assert(num * pow10(1) == 10 * num);
    } else {
        assert(floor_log10(10 * num, den) == e + 1);
        let p = pow10((-e - 1) as nat);
        assert(pow10((-e) as nat) == 10 * p);
        assert((10 * num) * p == num * pow10((-e) as nat)) by (nonlinear_arith)
            requires
                pow10((-e) as nat) == 10 * p,
        ;
    }
}

/// The round number never decreases as the fraction grows: the exponent does not
/// decrease, and within one exponent the digit does not.
pub proof fn lemma_nice_num_grows(num1: nat, num2: nat, den: nat, round: bool)
    requires
        0 < num1 <= num2 <= NICE_LIMIT,
        0 < den <= NICE_LIMIT,
    ensures
        ({
            let a = nice_num_spec(num1, den, round);
            let b = nice_num_spec(num2, den, round);
            a.exp < b.exp || (a.exp == b.exp && a.digit <= b.digit)
        }),
{
    lemma_floor_log10_range(num1, den);
    lemma_floor_log10_range(num2, den);
    lemma_nice_num_form(num1, den, round);
    lemma_nice_num_form(num2, den, round);
    let e1 = floor_log10(num1, den);
    let e2 = floor_log10(num2, den);
    if num1 >= den {
        lemma_decade_up_monotonic(num1, num2, den);
    } else if num2 < den {
        lemma_decade_down_monotonic(num1, num2, den);
    } else {
        lemma_decade_down(num1, den);
    }
    assert(e1 <= e2);
    if e1 == e2 {
        if e1 >= 0 {
            let d = den * pow10(e1 as nat);
            assert(nice_digit(num1, d, round) <= nice_digit(num2, d, round));
        } else {
            let p = pow10((-e1) as nat);
            assert(num1 * p <= num2 * p) by (nonlinear_arith)
                requires
                    num1 <= num2,
            ;
            assert(nice_digit(num1 * p, den, round) <= nice_digit(num2 * p, den, round));
        }
    }
}

/// The digit for the leading fraction `n / d`, where `d <= n < 10 * d`.
fn pick_digit(n: u128, d: u128, round: bool) -> (digit: u8)
    requires
        0 < d <= NICE_LIMIT,
        n < 10 * d,
    ensures
        digit == nice_digit(n as nat, d as nat, round),
{
    if round {
        if 2 * n < 3 * d {
            1
        } else if n < 3 * d {
            2
        } else if n < 7 * d {
            5
        } else {
            10
        }
    } else {
        if n < d {
            1
        } else if n < 2 * d {
            2
        } else if n < 5 * d {
            5
        } else {
            10
        }
    }
}

/// A round number near the positive fraction `num / den`: the fraction is divided by
/// the power of ten just below it, and the quotient, which lies between 1 and 10, picks
/// a digit. With `round` the digit is 1 below 1.5, 2 below 3, 5 below 7 and 10 from
/// there; without it the digit is 1 below 1, 2 below 2, 5 below 5 and 10 from there.
pub fn nice_num(num: u128, den: u128, round: bool) -> (r: NiceNumber)
    requires
        0 < num <= NICE_LIMIT,
        0 < den <= NICE_LIMIT,
    ensures
        r == nice_num_spec(num as nat, den as nat, round),
{
    proof {
        lemma_floor_log10_range(num as nat, den as nat);
    }
    if num >= den {
        let mut d: u128 = den;
        let mut e: i32 = 0;
        assert(pow10(0) == 1);
        assert(den * pow10(0) == den);
        while num >= 10 * d
            invariant
                0 < den <= d <= num <= NICE_LIMIT,
                0 <= e <= 36,
                d == den * pow10(e as nat),
                decade_up(num as nat, den as nat) == e + decade_up(num as nat, d as nat),
            decreases num - d,
        {
            proof {
                lemma_nice_limit();
                assert(pow10((e + 1) as nat) == 10 * pow10(e as nat));
                assert(10 * d == den * pow10((e + 1) as nat)) by (nonlinear_arith)
                    requires
                        d == den * pow10(e as nat),
                        pow10((e + 1) as nat) == 10 * pow10(e as nat),
                ;
                assert(pow10((e + 1) as nat) <= den * pow10((e + 1) as nat)) by (nonlinear_arith)
                    requires
                        den >= 1,
                ;
                lemma_pow10_exponent_bound((e + 1) as nat, 36);
            }
            d = 10 * d;
            e = e + 1;
        }
        NiceNumber { digit: pick_digit(num, d, round), exp: e }
    } else {
        let mut m: u128 = num;
        let mut k: i32 = 0;
        assert(pow10(0) == 1);
        assert(num * pow10(0) == num);
        while 10 * m < den
            invariant
                0 < num <= m < den <= NICE_LIMIT,
                0 <= k <= 36,
                m == num * pow10(k as nat),
                decade_down(num as nat, den as nat) == k + decade_down(m as nat, den as nat),
            decreases den - m,
        {
            proof {
                lemma_nice_limit();
                assert(pow10((k + 1) as nat) == 10 * pow10(k as nat));
                assert(10 * m == num * pow10((k + 1) as nat)) by (nonlinear_arith)
                    requires
                        m == num * pow10(k as nat),
                        pow10((k + 1) as nat) == 10 * pow10(k as nat),
                ;
                assert(pow10((k + 1) as nat) <= num * pow10((k + 1) as nat)) by (nonlinear_arith)
                    requires
                        num >= 1,
                ;
                lemma_pow10_exponent_bound((k + 1) as nat, 36);
            }
            m = 10 * m;
            k = k + 1;
        }
        proof {
            assert(pow10((k + 1) as nat) == 10 * pow10(k as nat));
            assert(10 * m == num * pow10((k + 1) as nat)) by (nonlinear_arith)
                requires
                    m == num * pow10(k as nat),
                    pow10((k + 1) as nat) == 10 * pow10(k as nat),
            ;
        }
        NiceNumber { digit: pick_digit(10 * m, den, round), exp: -(k + 1) }
    }
}

/// The largest magnitude of a visible bound that `plan_ticks` takes: `3 * 10^27`.
pub const VISIBLE_LIMIT: i128 = 3_000_000_000_000_000_000_000_000_000;

/// The ticks of one axis. `visible_min`, `visible_max` and the markers count steps of
/// `10^-decimals`; `fraction_digits` is the number of decimal places of the step
/// between two markers.
pub struct TickPlan {
    pub fraction_digits: u32,
    pub decimals: u32,
    pub visible_min: i128,
    pub visible_max: i128,
    pub markers: Vec<i128>,
}

/// A `TickPlan` as mathematical values.
pub struct TickPlanView {
    pub fraction_digits: nat,
    pub decimals: nat,
    pub visible_min: int,
    pub visible_max: int,
    pub markers: Seq<int>,
}

/// A sequence of machine numbers as mathematical integers.
pub open spec fn as_ints(s: Seq<i128>) -> Seq<int> {
    Seq::new(s.len(), |i: int| s[i] as int)
}

impl View for TickPlan {
    type V = TickPlanView;

    open spec fn view(&self) -> TickPlanView {
        TickPlanView {
            fraction_digits: self.fraction_digits as nat,
            decimals: self.decimals as nat,
            visible_min: self.visible_min as int,
            visible_max: self.visible_max as int,
            markers: as_ints(self.markers@),
        }
    }
}

/// The number of intervals that the ticks aim at: the pixels between the two margins
/// divided by the pixels wanted per tick, and 2 where that gives less.
pub open spec fn tick_count(render_length: int, margin: int, pixels_per_tick: int) -> int {
    let n = (render_length - 2 * margin) / pixels_per_tick;
    if n < 2 {
        2
    } else {
        n
    }
}

/// The value `digit * 10^exp` of a round number whose exponent is not negative.
pub open spec fn nice_value(n: NiceNumber) -> nat {
    n.digit as nat * pow10(n.exp as nat)
}

/// The step between two ticks: the round number, with rounding, for the round number
/// of the visible range, without rounding, divided by the number of intervals.
pub open spec fn tick_step(visible_min: int, visible_max: int, count: int) -> NiceNumber {
    let rough = nice_value(nice_num_spec((visible_max - visible_min) as nat, 1, false));
    nice_num_spec(rough, (count - 1) as nat, true)
}

/// The number of decimal places that a step adds to those of the data.
pub open spec fn step_decimals(step: NiceNumber) -> nat {
    if step.exp < 0 {
        (-step.exp) as nat
    } else {
        0
    }
}

/// The step in steps of `10^-step_decimals`.
pub open spec fn step_unit(step: NiceNumber) -> int {
    if step.exp < 0 {
        step.digit as int
    } else {
        step.digit as int * pow10(step.exp as nat)
    }
}

/// The decimal places of the step: the negated exponent of the power of ten just
/// below it, and 0 where the step is 1 or more.
pub open spec fn step_fraction_digits(step: NiceNumber) -> nat {
    let e = step.exp - UNIT_DIGITS + if step.digit == 10 { 1int } else { 0int };
    if e < 0 {
        (-e) as nat
    } else {
        0
    }
}

/// The multiples of `unit` from the last one that is not above `lo` to the first one
/// that is not below `hi`, each held to the interval from `lo` to `hi`.
pub open spec fn grid_markers(lo: int, hi: int, unit: int) -> Seq<int> {
    let first = lo / unit;
    let last = div_ceil(hi, unit);
    Seq::new((last - first + 1) as nat, |i: int| clip((first + i) * unit, lo, hi))
}

/// Whether an axis of this length and range has ticks at all.
pub open spec fn has_ticks(visible_min: int, visible_max: int, render_length: int, margin: int) -> bool {
    render_length - 2 * margin > 0 && visible_min < visible_max
}

/// The ticks for a visible range.
pub open spec fn plan_spec(
    visible_min: int,
    visible_max: int,
    render_length: int,
    margin: int,
    pixels_per_tick: int,
) -> TickPlanView {
    if has_ticks(visible_min, visible_max, render_length, margin) {
        let step = tick_step(
            visible_min,
            visible_max,
            tick_count(render_length, margin, pixels_per_tick),
        );
        let scale = pow10(step_decimals(step)) as int;
        TickPlanView {
            fraction_digits: step_fraction_digits(step),
            decimals: UNIT_DIGITS as nat + step_decimals(step),
            visible_min: visible_min * scale,
            visible_max: visible_max * scale,
            markers: grid_markers(visible_min * scale, visible_max * scale, step_unit(step)),
        }
    } else {
        TickPlanView {
            fraction_digits: 0,
            decimals: UNIT_DIGITS as nat,
            visible_min,
            visible_max,
            markers: Seq::empty(),
        }
    }
}

/// The largest magnitude that the grid works on: `3 * 10^37`.
pub const GRID_LIMIT: i128 = 30_000_000_000_000_000_000_000_000_000_000_000_000;

/// The round number of a range is at least 1, at most ten times the range, and has an
/// exponent that is not negative.
proof fn lemma_rough_range(range: nat)
    requires
        0 < range <= 2 * VISIBLE_LIMIT,
    ensures
        0 <= nice_num_spec(range, 1, false).exp <= 36,
        range < nice_value(nice_num_spec(range, 1, false)) <= 10 * range,
{
    lemma_nice_num_form(range, 1, false);
    let r = nice_num_spec(range, 1, false);
    lemma_pow10_positive(r.exp as nat);
    let p = pow10(r.exp as nat);
    assert(1 * p == p);
    assert(r.digit as nat * p > range) by (nonlinear_arith)
        requires
            p <= range,
            r.digit == 2 || r.digit == 5 || r.digit == 10,
            r.digit == 2 ==> range < 2 * p,
            r.digit == 5 ==> range < 5 * p,
            range < 10 * p,
    ;
    assert(r.digit as nat * pow10(r.exp as nat) <= 10 * pow10(r.exp as nat)) by (nonlinear_arith)
        requires
            r.digit <= 10,
    ;
    assert(r.digit as nat * pow10(r.exp as nat) > 0) by (nonlinear_arith)
        requires
            r.digit >= 1,
            pow10(r.exp as nat) >= 1,
    ;
}

/// A fraction whose denominator is below `10^10` and whose numerator is at least 1 has
/// an exponent of at least -10.
proof fn lemma_step_exponent(num: nat, den: nat)
    requires
        0 < num,
        0 < den < 10_000_000_000,
    ensures
        floor_log10(num, den) >= -10,
{
    if num < den {
        lemma_decade_down(num, den);
        let k = (decade_down(num, den) - 1) as nat;
        assert(pow10(10) == 10_000_000_000) by {
            reveal_with_fuel(pow10, 11);
        }
        assert(pow10(k) <= num * pow10(k)) by (nonlinear_arith)
            requires
                num >= 1,
        ;
        if k >= 10 {
            lemma_pow10_monotonic(10, k);
        }
    }
}

/// With rounding, the round number of a fraction is more than two thirds of it: for a
/// leading fraction `n / d` between 1 and 10, three times the digit is more than
/// `2 * n / d`.
proof fn lemma_digit_covers(n: nat, d: nat)
    requires
        0 < d <= n < 10 * d,
    ensures
        3 * nice_digit(n, d, true) * d > 2 * n,
{
    let g = nice_digit(n, d, true);
    if g == 1 {
        assert(3 * g * d == 3 * d) by (nonlinear_arith)
            requires
                g == 1,
        ;
    } else if g == 2 {
        assert(3 * g * d == 6 * d) by (nonlinear_arith)
            requires
                g == 2,
        ;
    } else if g == 5 {
        assert(3 * g * d == 15 * d) by (nonlinear_arith)
            requires
                g == 5,
        ;
    } else {
        assert(3 * g * d == 30 * d) by (nonlinear_arith)
            requires
                g == 10,
        ;
    }
}

/// The step between two ticks is more than two thirds of the fraction it was made
/// for: with the step and the fraction `num / den` both in steps of
/// `10^-step_decimals`, `3 * den * step > 2 * num`.
proof fn lemma_step_covers(num: nat, den: nat)
    requires
        0 < num <= NICE_LIMIT,
        0 < den <= NICE_LIMIT,
    ensures
        ({
            let step = nice_num_spec(num, den, true);
            3 * den * step_unit(step) > 2 * num * pow10(step_decimals(step))
        }),
{
    lemma_nice_num_form(num, den, true);
    let step = nice_num_spec(num, den, true);
    let e = step.exp as int;
    let g = step.digit as int;
    if e >= 0 {
        let p = pow10(e as nat);
        lemma_pow10_positive(e as nat);
        assert(pow10((e + 1) as nat) == 10 * p);
        assert(den * pow10((e + 1) as nat) == 10 * (den * p)) by (nonlinear_arith)
            requires
                pow10((e + 1) as nat) == 10 * p,
        ;
        lemma_digit_covers(num, den * p);
        assert(pow10(0) == 1);
        assert(3 * den * (g * p) == 3 * g * (den * p)) by (nonlinear_arith);
        assert(2 * num * pow10(0) == 2 * num);
    } else {
        let p = pow10((-e) as nat);
        assert(p == 10 * pow10((-e - 1) as nat));
        assert(num * p == 10 * (num * pow10((-e - 1) as nat))) by (nonlinear_arith)
            requires
                p == 10 * pow10((-e - 1) as nat),
        ;
        lemma_digit_covers(num * p, den);
        assert(3 * den * g == 3 * g * den) by (nonlinear_arith);
        assert(2 * num * p == 2 * (num * p)) by (nonlinear_arith);
    }
}

/// A grid whose step is more than two thirds of the `count`th part of the interval
/// has at most `(3 * count + 5) / 2` markers.
proof fn lemma_grid_markers_count(lo: int, hi: int, unit: int, count: int)
    requires
        lo < hi,
        unit > 0,
        count > 0,
        3 * count * unit > 2 * (hi - lo),
    ensures
        0 < grid_markers(lo, hi, unit).len(),
        2 * grid_markers(lo, hi, unit).len() <= 3 * count + 5,
{
    lemma_div_floor_bounds(lo, unit);
    lemma_div_ceil_bounds(hi, unit);
    let first = lo / unit;
    let last = div_ceil(hi, unit);
    assert(first <= last && 2 * (last - first) < 3 * count + 4) by (nonlinear_arith)
        requires
            first * unit <= lo < first * unit + unit,
            last * unit - unit < hi <= last * unit,
            lo < hi,
            unit > 0,
            3 * count * unit > 2 * (hi - lo),
    ;
}

/// The markers never decrease, and each lies between `lo` and `hi`.
pub proof fn lemma_grid_markers_ordered(lo: int, hi: int, unit: int)
    requires
        lo <= hi,
        unit > 0,
    ensures
        forall|i: int|
            0 <= i < grid_markers(lo, hi, unit).len() ==> lo <= #[trigger] grid_markers(
                lo,
                hi,
                unit,
            )[i] <= hi,
        forall|i: int, j: int|
            0 <= i <= j < grid_markers(lo, hi, unit).len() ==> #[trigger] grid_markers(
                lo,
                hi,
                unit,
            )[i] <= #[trigger] grid_markers(lo, hi, unit)[j],
{
    let first = lo / unit;
    assert forall|i: int, j: int| 0 <= i <= j < grid_markers(lo, hi, unit).len() implies (
    #[trigger] grid_markers(lo, hi, unit)[i]) <= #[trigger] grid_markers(lo, hi, unit)[j] by {
        assert((first + i) * unit <= (first + j) * unit) by (nonlinear_arith)
            requires
                i <= j,
                unit > 0,
        ;
    }
}

/// The multiples of `unit` around the interval from `lo` to `hi`, held to the interval.
fn grid(lo: i128, hi: i128, unit: i128) -> (markers: Vec<i128>)
    requires
        -GRID_LIMIT <= lo < hi <= GRID_LIMIT,
        0 < unit <= GRID_LIMIT,
    ensures
        as_ints(markers@) == grid_markers(lo as int, hi as int, unit as int),
{
    let first: i128 = div_floor_exec(lo, unit);
    let last: i128 = div_ceil_exec(hi, unit);
    proof {
        lemma_div_floor_bounds(lo as int, unit as int);
        lemma_div_ceil_bounds(hi as int, unit as int);
        assert(first <= last) by (nonlinear_arith)
            requires
                first * unit <= lo,
                lo < hi,
                hi <= last * unit,
                unit > 0,
        ;
    }
    let end: i128 = last * unit;
    let mut m: i128 = first * unit;
    let mut markers: Vec<i128> = Vec::new();
    let ghost mut i: int = 0;
    while m <= end
        invariant
            -GRID_LIMIT <= lo < hi <= GRID_LIMIT,
            0 < unit <= GRID_LIMIT,
            first == lo as int / unit as int,
            last == div_ceil(hi as int, unit as int),
            end == last * unit,
            hi <= end < hi + unit,
            0 <= i <= last - first + 1,
            m == (first + i) * unit,
            m <= end + unit,
            markers@.len() == i,
            forall|j: int|
                0 <= j < i ==> #[trigger] markers@[j] == clip(
                    (first + j) * unit,
                    lo as int,
                    hi as int,
                ),
        decreases end + unit - m,
    {
        let marker: i128 = if m < lo {
            lo
        } else if m > hi {
            hi
        } else {
            m
        };
        markers.push(marker);
        proof {
            assert(i < last - first + 1) by (nonlinear_arith)
                requires
                    m == (first + i) * unit,
                    end == last * unit,
                    m <= end,
                    unit > 0,
            ;
            assert((first + (i + 1)) * unit == (first + i) * unit + unit) by (nonlinear_arith);
            assert((first + (i + 1)) * unit <= last * unit + unit) by (nonlinear_arith)
                requires
                    i + 1 <= last - first + 1,
                    unit > 0,
            ;
            i = i + 1;
        }
        m = m + unit;
    }
    proof {
        assert(i == last - first + 1) by (nonlinear_arith)
            requires
                m == (first + i) * unit,
                end == last * unit,
                m > end,
                unit > 0,
                i <= last - first + 1,
        ;
        assert(as_ints(markers@) =~= grid_markers(lo as int, hi as int, unit as int));
    }
    markers
}

/// Plans the ticks of an axis that shows the values from `visible_min` to
/// `visible_max`, both in millionths, on `render_length` pixels with `margin` pixels
/// free at either end and about `pixels_per_tick` pixels from one tick to the next.
///
/// An axis with no pixel between its margins, or with an empty range, has no ticks.
pub fn plan_ticks(
    visible_min: i128,
    visible_max: i128,
    render_length: i32,
    margin: i32,
    pixels_per_tick: i32,
) -> (plan: TickPlan)
    requires
        pixels_per_tick > 0,
        -VISIBLE_LIMIT <= visible_min <= VISIBLE_LIMIT,
        -VISIBLE_LIMIT <= visible_max <= VISIBLE_LIMIT,
    ensures
        plan@ == plan_spec(
            visible_min as int,
            visible_max as int,
            render_length as int,
            margin as int,
            pixels_per_tick as int,
        ),
        forall|i: int|
            0 <= i < plan@.markers.len() ==> plan@.visible_min <= #[trigger] plan@.markers[i]
                <= plan@.visible_max,
        forall|i: int, j: int|
            0 <= i <= j < plan@.markers.len() ==> #[trigger] plan@.markers[i]
                <= #[trigger] plan@.markers[j],
        plan@.visible_max - plan@.visible_min <= 2 * VISIBLE_LIMIT,
        plan@.fraction_digits <= 43,
        plan@.markers.len() > 0 ==> plan@.visible_min < plan@.visible_max,
        2 * plan@.markers.len() <= 3 * tick_count(
            render_length as int,
            margin as int,
            pixels_per_tick as int,
        ) + 2,
{
    let available: i64 = render_length as i64 - 2 * (margin as i64);
    if available <= 0 || visible_max <= visible_min {
        let plan = TickPlan {
            fraction_digits: 0,
            decimals: UNIT_DIGITS,
            visible_min,
            visible_max,
            markers: Vec::new(),
        };
        assert(plan@.markers =~= Seq::<int>::empty());
        return plan;
    }
    let quotient: i64 = available / (pixels_per_tick as i64);
    let count: i64 = if quotient < 2 {
        2
    } else {
        quotient
    };
    let range: u128 = (visible_max - visible_min) as u128;
    proof {
        lemma_rough_range(range as nat);
        lemma_nice_limit();
        assert(count - 1 <= available) by (nonlinear_arith)
            requires
                quotient == available as int / pixels_per_tick as int,
                available > 0,
                pixels_per_tick >= 1,
                count == if quotient < 2 { 2int } else { quotient as int },
                available >= 1,
        ;
    }
    let rough: NiceNumber = nice_num(range, 1, false);
    let power: u128 = pow10_exec(rough.exp as u32);
    let rough_value: u128 = (rough.digit as u128) * power;
    proof {
        lemma_nice_num_form(rough_value as nat, (count - 1) as nat, true);
        lemma_step_exponent(rough_value as nat, (count - 1) as nat);
        lemma_step_covers(rough_value as nat, (count - 1) as nat);
    }
    let step: NiceNumber = nice_num(rough_value, (count - 1) as u128, true);
    let scale: i128;
    let unit: i128;
    let added: u32;
    if step.exp < 0 {
        added = (-step.exp) as u32;
        let factor: u128 = pow10_exec(added);
        proof {
            lemma_pow10_monotonic(added as nat, 10);
            assert(pow10(10) == 10_000_000_000) by {
                reveal_with_fuel(pow10, 11);
            }
        }
        scale = factor as i128;
        unit = step.digit as i128;
        proof {
            assert(rough_value < count - 1);
            assert(visible_max * scale - visible_min * scale <= 2 * VISIBLE_LIMIT) by (nonlinear_arith)
                requires
                    0 <= visible_max - visible_min <= 0x2_0000_0000,
                    1 <= scale <= 10_000_000_000,
                    VISIBLE_LIMIT == 3_000_000_000_000_000_000_000_000_000,
            ;
        }
    } else {
        added = 0;
        let factor: u128 = pow10_exec(step.exp as u32);
        proof {
            lemma_pow10_monotonic(step.exp as nat, 36);
            assert(pow10(0) == 1);
            assert(step.digit as int * pow10(step.exp as nat) <= 10 * pow10(36)) by (nonlinear_arith)
                requires
                    1 <= step.digit <= 10,
                    pow10(step.exp as nat) <= pow10(36),
            ;
            assert(step.digit as int * pow10(step.exp as nat) > 0) by (nonlinear_arith)
                requires
                    1 <= step.digit <= 10,
                    pow10(step.exp as nat) >= 1,
            ;
            lemma_pow10_positive(step.exp as nat);
        }
        scale = 1;
        unit = (step.digit as i128) * (factor as i128);
    }
    proof {
        assert(-GRID_LIMIT <= visible_min * scale <= GRID_LIMIT) by (nonlinear_arith)
            requires
                -VISIBLE_LIMIT <= visible_min <= VISIBLE_LIMIT,
                1 <= scale <= 10_000_000_000,
        ;
        assert(-GRID_LIMIT <= visible_max * scale <= GRID_LIMIT) by (nonlinear_arith)
            requires
                -VISIBLE_LIMIT <= visible_max <= VISIBLE_LIMIT,
                1 <= scale <= 10_000_000_000,
        ;
        assert(visible_min * scale < visible_max * scale) by (nonlinear_arith)
            requires
                visible_min < visible_max,
                scale >= 1,
        ;
        assert(2 * (visible_max * scale - visible_min * scale) < 3 * (count - 1) * unit)
            by (nonlinear_arith)
            requires
                0 < range == visible_max - visible_min,
                range < rough_value,
                scale >= 1,
                3 * (count - 1) * unit > 2 * rough_value * scale,
        ;
        lemma_grid_markers_count(
            visible_min * scale,
            visible_max * scale,
            unit as int,
            count - 1,
        );
    }
    let lo: i128 = visible_min * scale;
    let hi: i128 = visible_max * scale;
    let tenth: i32 = if step.digit == 10 {
        1
    } else {
        0
    };
    let e: i32 = step.exp - 6 + tenth;
    let fraction_digits: u32 = if e < 0 {
        (-e) as u32
    } else {
        0
    };
    let markers: Vec<i128> = grid(lo, hi, unit);
    proof {
        lemma_grid_markers_ordered(lo as int, hi as int, unit as int);
    }
    TickPlan { fraction_digits, decimals: UNIT_DIGITS + added, visible_min: lo, visible_max: hi, markers }
}

} // verus!
