//! The share of its parent's space that a container takes, and the text of
//! that share as a percentage.
//!
//! Verified code has no floating point. A double is therefore kept either as
//! the integer it was read from, of either sign, or as a [`Float`] that brings
//! its texts along. For an integer the text of its percentage is computed
//! here, in integers, with the rounding that the conversion to a double and
//! the multiplication of doubles apply.

use vstd::prelude::*;
use vstd::arithmetic::div_mod::{lemma_div_denominator, lemma_fundamental_div_mod};
use crate::json::{Float, FloatView};
use crate::text::{decimal, decimal_text};

verus! {

/// A number read as a double: the share of its parent's space that a
/// container takes.
#[derive(Debug, PartialEq, Eq)]
pub enum Fraction {
    /// The double nearest to this integer.
    Whole(u64),
    /// The double nearest to this integer, which may be below zero.
    Signed(i64),
    /// A double that is given by its texts.
    Float(Float),
}

/// What a [`Fraction`] stands for in contracts.
pub enum FractionView {
    Whole(u64),
    Signed(i64),
    Float(FloatView),
}

impl View for Fraction {
    type V = FractionView;

    open spec fn view(&self) -> FractionView {
        match self {
            Fraction::Whole(u) => FractionView::Whole(*u),
            Fraction::Signed(i) => FractionView::Signed(*i),
            Fraction::Float(f) => FractionView::Float(f@),
        }
    }
}

/// The least integer that a double's 53-bit significand cannot hold: 2^53.
pub open spec fn significand_limit() -> nat {
    0x20_0000_0000_0000
}

/// The distance between neighbouring doubles at `n`: 1 below 2^53, and twice
/// as much each time `n` doubles.
pub open spec fn spacing(n: nat) -> nat
    decreases n,
{
    if n < significand_limit() {
        1
    } else {
        2 * spacing(n / 2)
    }
}

/// The double nearest to `n`; of two that are equally near, the one whose
/// significand is even.
pub open spec fn nearest_double(n: nat) -> nat {
    let step = spacing(n);
    let below = n / step;
    let rest = n % step;
    if 2 * rest > step || (2 * rest == step && below % 2 == 1) {
        (below + 1) * step
    } else {
        below * step
    }
}

/// A hundred times the double nearest to `n`, as a double.
pub open spec fn hundredfold(n: nat) -> nat {
    nearest_double(nearest_double(n) * 100)
}

/// The text of the percentage that the integer `n` is as a fraction: a
/// hundred times the double nearest to `n`, which is an integer, and three
/// zeros as its decimals.
pub open spec fn whole_percent(n: nat) -> Seq<char> {
    decimal(hundredfold(n)) + ".000"@
}

/// The text of the percentage that `value` is as a fraction: a hundred times
/// the double, with three decimals, and a minus sign in front where the
/// double is below zero.
pub open spec fn percent_text(value: FractionView) -> Seq<char> {
    match value {
        FractionView::Whole(u) => whole_percent(u as nat),
        FractionView::Signed(i) => if i < 0 {
            "-"@ + whole_percent((-i) as nat)
        } else {
            whole_percent(i as nat)
        },
        FractionView::Float(f) => f.percent,
    }
}

/// `spacing(n)` is positive and at most `n` where `n` is positive.
pub proof fn lemma_spacing_bounds(n: nat)
    ensures
        1 <= spacing(n),
        n >= 1 ==> spacing(n) <= n,
    decreases n,
{
    if n >= significand_limit() {
        lemma_spacing_bounds(n / 2);
    }
}

/// The double nearest to `n` is at most twice `n`.
pub proof fn lemma_nearest_double_bound(n: nat)
    ensures
        nearest_double(n) <= 2 * n,
{
    let step = spacing(n) as int;
    let below = (n as int) / step;
    lemma_spacing_bounds(n);
    lemma_fundamental_div_mod(n as int, step);
    assert(step * below <= n);
    assert((below + 1) * step == below * step + step) by (nonlinear_arith);
    assert(below * step == step * below) by (nonlinear_arith);
    if n == 0 {
        assert(below == 0);
        assert((n as int) % step == 0);
    }
}

/// At `n`, fewer than 2^53 steps of the spacing lead up to `n`: the
/// significand of a double holds their number.
pub proof fn lemma_spacing_fits(n: nat)
    ensures
        n / spacing(n) < significand_limit(),
    decreases n,
{
    if n >= significand_limit() {
        lemma_spacing_fits(n / 2);
        lemma_spacing_bounds(n / 2);
        lemma_div_denominator(n as int, 2, spacing(n / 2) as int);
    }
}

/// The double nearest to `n` is a whole number of steps of the spacing at
/// `n`, at most 2^53 of them, and is no further from `n` than half a step.
pub proof fn lemma_nearest_double_is_near(n: nat)
    ensures
        nearest_double(n) % spacing(n) == 0,
        nearest_double(n) / spacing(n) <= significand_limit(),
        2 * (nearest_double(n) - n) <= spacing(n),
        2 * (n - nearest_double(n)) <= spacing(n),
{
    let step = spacing(n) as int;
    let below = (n as int) / step;
    let rest = (n as int) % step;
    lemma_spacing_bounds(n);
    lemma_spacing_fits(n);
    lemma_fundamental_div_mod(n as int, step);
    assert(n == below * step + rest) by (nonlinear_arith)
        requires
            n == step * below + rest,
    ;
    assert((below + 1) * step == below * step + step) by (nonlinear_arith);
    vstd::arithmetic::div_mod::lemma_mod_multiples_basic(below, step);
    vstd::arithmetic::div_mod::lemma_mod_multiples_basic(below + 1, step);
    vstd::arithmetic::div_mod::lemma_div_multiples_vanish(below, step);
    vstd::arithmetic::div_mod::lemma_div_multiples_vanish(below + 1, step);
}

impl Float {
    /// A copy of this number.
    pub fn copy(&self) -> (r: Float)
        ensures
            r@ == self@,
    {
        Float { shown: self.shown.clone(), percent: self.percent.clone() }
    }
}

impl Fraction {
    /// A copy of this number.
    pub fn copy(&self) -> (r: Fraction)
        ensures
            r@ == self@,
    {
        match self {
            Fraction::Whole(u) => Fraction::Whole(*u),
            Fraction::Signed(i) => Fraction::Signed(*i),
            Fraction::Float(f) => Fraction::Float(f.copy()),
        }
    }

    /// Writes the percentage that this number is as a fraction.
    pub fn percent_text(&self) -> (r: String)
        ensures
            r@ == percent_text(self@),
    {
        match self {
            Fraction::Whole(u) => whole_percent_text(*u),
            Fraction::Signed(i) => {
                if *i < 0 {
                    let magnitude: u64 = (-(*i as i128)) as u64;
                    let mut r = String::from_str("-");
                    r.append(whole_percent_text(magnitude).as_str());
                    r
                } else {
                    whole_percent_text(*i as u64)
                }
            },
            Fraction::Float(f) => f.percent.clone(),
        }
    }
}

/// Writes the percentage that the integer `n` is as a fraction.
pub fn whole_percent_text(n: u64) -> (r: String)
    ensures
        r@ == whole_percent(n as nat),
{
    let near = round_to_double(n as u128);
    proof {
        lemma_nearest_double_bound(n as nat);
    }
    let scaled = round_to_double(near * 100);
    let mut r = decimal_text(scaled);
    r.append(".000");
    r
}

/// Rounds `n` to the nearest double.
pub fn round_to_double(n: u128) -> (r: u128)
    requires
        2 * n <= u128::MAX,
    ensures
        r == nearest_double(n as nat),
{
    let mut step: u128 = 1;
    let mut below: u128 = n;
    while below >= 0x20_0000_0000_0000
        invariant
            1 <= step,
            below == n / step,
            spacing(n as nat) == step * spacing(below as nat),
            2 * n <= u128::MAX,
        decreases below,
    {
        proof {
            lemma_div_denominator(n as int, step as int, 2);
            lemma_fundamental_div_mod(n as int, step as int);
            assert(step * below <= n) by (nonlinear_arith)
                requires
                    n == step * below + (n % step),
                    0 <= n % step,
            ;
            assert(step <= n) by (nonlinear_arith)
                requires
                    step * below <= n,
                    below >= 1,
                    step >= 1,
            ;
            assert(step * (2 * spacing((below / 2) as nat)) == (step * 2) * spacing(
                (below / 2) as nat,
            )) by (nonlinear_arith);
        }
        below = below / 2;
        step = step * 2;
    }
    let rest = n % step;
    proof {
        lemma_fundamental_div_mod(n as int, step as int);
        assert(step * below <= n) by (nonlinear_arith)
            requires
                n == step * below + (n % step),
                0 <= n % step,
        ;
        assert(below * step == step * below) by (nonlinear_arith);
        assert((below + 1) * step == below * step + step) by (nonlinear_arith);
        assert(rest < step);
        assert(spacing(below as nat) == 1);
        assert(spacing(n as nat) == step) by (nonlinear_arith)
            requires
                spacing(n as nat) == step * spacing(below as nat),
                spacing(below as nat) == 1,
        ;
    }
    if 2 * rest > step || (2 * rest == step && below % 2 == 1) {
        (below + 1) * step
    } else {
        below * step
    }
}

} // verus!
