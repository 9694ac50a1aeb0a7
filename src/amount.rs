//! Exact decimal amounts: a mantissa and a scale, as rust_decimal holds them.

use vstd::prelude::*;
use rust_decimal::Decimal;
use core::cmp::Ordering;

verus! {

/// Largest magnitude of a mantissa (96 bits).
pub const MAX_MANTISSA: i128 = 0xFFFF_FFFF_FFFF_FFFF_FFFF_FFFF;

/// Largest number of decimal places.
pub const MAX_SCALE: u32 = 28;

/// Ten to the power `n`.
pub open spec fn pow10(n: nat) -> int
    decreases n,
{
    if n == 0 {
        1
    } else {
        10 * pow10((n - 1) as nat)
    }
}

/// An exact decimal number `mantissa / 10^scale`.
#[derive(Debug, Clone, Copy)]
pub struct Amount {
    pub mantissa: i128,
    pub scale: u32,
}

impl Amount {
    /// The mantissa and the scale are within rust_decimal's range.
    pub open spec fn wf(self) -> bool {
        -MAX_MANTISSA <= self.mantissa <= MAX_MANTISSA && self.scale <= MAX_SCALE
    }

    /// The value counted in units of `10^-28`, which is an integer for
    /// every well-formed amount.
    pub open spec fn units(self) -> int {
        self.mantissa * pow10((MAX_SCALE - self.scale) as nat)
    }

    /// The mantissa written at a larger scale `s`.
    pub open spec fn aligned(self, s: nat) -> int {
        self.mantissa * pow10((s - self.scale) as nat)
    }

    /// The amount `mantissa / 10^scale`.
    pub fn new(mantissa: i64, scale: u32) -> (r: Amount)
        requires
            scale <= MAX_SCALE,
        ensures
            r.wf(),
            r.mantissa == mantissa,
            r.scale == scale,
    {
        Amount { mantissa: mantissa as i128, scale }
    }

    /// The amount `mantissa / 10^scale`, if it is within range.
    pub fn from_parts(mantissa: i128, scale: u32) -> (r: Option<Amount>)
        ensures
            r matches Some(a) <==> (-MAX_MANTISSA <= mantissa <= MAX_MANTISSA && scale <= MAX_SCALE),
            r matches Some(a) ==> a.mantissa == mantissa && a.scale == scale,
    {
        if -MAX_MANTISSA <= mantissa && mantissa <= MAX_MANTISSA && scale <= MAX_SCALE {
            Some(Amount { mantissa, scale })
        } else {
            None
        }
    }

    /// Zero, at scale zero.
    pub fn zero() -> (r: Amount)
        ensures
            r.wf(),
            r.units() == 0,
            r == zero_amount(),
    {
        Amount { mantissa: 0, scale: 0 }
    }
}

/// The larger of the two scales.
pub open spec fn larger_scale(a: Amount, b: Amount) -> nat {
    if a.scale >= b.scale {
        a.scale as nat
    } else {
        b.scale as nat
    }
}

/// The exact sum as rust_decimal writes it: a zero operand gives the other
/// one; otherwise the mantissas are added at the larger scale.
pub open spec fn exact_sum(a: Amount, b: Amount) -> Amount {
    if a.mantissa == 0 {
        b
    } else if b.mantissa == 0 {
        a
    } else {
        let s = larger_scale(a, b);
        Amount { mantissa: (a.aligned(s) + b.aligned(s)) as i128, scale: s as u32 }
    }
}

/// Powers of ten multiply by adding exponents.
pub proof fn lemma_pow10_add(m: nat, n: nat)
    ensures
        pow10(m + n) == pow10(m) * pow10(n),
    decreases m,
{
    if m > 0 {
        lemma_pow10_add((m - 1) as nat, n);
        assert(pow10(m + n) == 10 * pow10((m - 1 + n) as nat));
        assert(10 * (pow10((m - 1) as nat) * pow10(n)) == (10 * pow10((m - 1) as nat)) * pow10(n))
            by (nonlinear_arith);
    }
}

/// An amount's units are its mantissa at scale `s`, times the powers of ten
/// that remain up to the largest scale.
pub proof fn lemma_units_aligned(a: Amount, s: nat)
    requires
        a.scale <= s <= MAX_SCALE,
    ensures
        a.units() == a.aligned(s) * pow10((MAX_SCALE - s) as nat),
{
    let x = (s - a.scale) as nat;
    let y = (MAX_SCALE - s) as nat;
    lemma_pow10_add(x, y);
    assert((MAX_SCALE - a.scale) as nat == x + y);
    assert(a.mantissa * (pow10(x) * pow10(y)) == (a.mantissa * pow10(x)) * pow10(y)) by (nonlinear_arith);
}

/// Zero, at scale zero.
pub open spec fn zero_amount() -> Amount {
    Amount { mantissa: 0, scale: 0 }
}

/// Whether rust_decimal adds `a` and `b` without leaving 96 bits: both
/// operands and the sum, written at the larger scale, fit the mantissa.
pub open spec fn sum_fits(a: Amount, b: Amount) -> bool {
    let s = larger_scale(a, b);
    &&& -MAX_MANTISSA <= a.aligned(s) <= MAX_MANTISSA
    &&& -MAX_MANTISSA <= b.aligned(s) <= MAX_MANTISSA
    &&& -MAX_MANTISSA <= a.aligned(s) + b.aligned(s) <= MAX_MANTISSA
}

/// The scale of `c` is the larger of the scales of `a` and `b`.
pub open spec fn keeps_larger_scale(c: Amount, a: Amount, b: Amount) -> bool {
    &&& c.scale >= a.scale
    &&& c.scale >= b.scale
    &&& (c.scale == a.scale || c.scale == b.scale)
}

/// Relies on rust_decimal's `Decimal::checked_add`: a zero first operand gives
/// the second back, else a zero second operand gives the first back; a sum that keeps the larger scale is exact; and a sum
/// of two non-zero operands that fits 96 bits at the larger scale is one such.
#[verifier::external_body]
fn decimal_checked_add(a: Amount, b: Amount) -> (r: Option<Amount>)
    requires
        a.wf(),
        b.wf(),
    ensures
        r is Some ==> r->0.wf(),
        a.mantissa == 0 ==> r == Some(b),
        a.mantissa != 0 && b.mantissa == 0 ==> r == Some(a),
        r is Some && keeps_larger_scale(r->0, a, b) ==> r->0.units() == a.units() + b.units(),
        a.mantissa != 0 && b.mantissa != 0 && sum_fits(a, b) ==> r is Some && keeps_larger_scale(r->0, a, b),
{
    let x = Decimal::from_i128_with_scale(a.mantissa, a.scale);
    let y = Decimal::from_i128_with_scale(b.mantissa, b.scale);
    x.checked_add(y).map(|d| Amount { mantissa: d.mantissa(), scale: d.scale() })
}

/// Relies on `Ord for Decimal`, which orders decimals by their value.
#[verifier::external_body]
fn decimal_cmp(a: &Amount, b: &Amount) -> (r: Ordering)
    requires
        a.wf(),
        b.wf(),
    ensures
        (r == Ordering::Less) == (a.units() < b.units()),
        (r == Ordering::Equal) == (a.units() == b.units()),
        (r == Ordering::Greater) == (a.units() > b.units()),
{
    let x = Decimal::from_i128_with_scale(a.mantissa, a.scale);
    let y = Decimal::from_i128_with_scale(b.mantissa, b.scale);
    x.cmp(&y)
}

/// Powers of ten are positive.
pub proof fn lemma_pow10_positive(n: nat)
    ensures
        pow10(n) > 0,
    decreases n,
{
    if n > 0 {
        lemma_pow10_positive((n - 1) as nat);
    }
}

/// The sign of an amount is the sign of its mantissa.
pub proof fn lemma_units_sign(a: Amount)
    ensures
        (a.units() < 0) == (a.mantissa < 0),
        (a.units() == 0) == (a.mantissa == 0),
        (a.units() > 0) == (a.mantissa > 0),
{
    let p = pow10((MAX_SCALE - a.scale) as nat);
    lemma_pow10_positive((MAX_SCALE - a.scale) as nat);
    assert((a.mantissa * p < 0) == (a.mantissa < 0)) by (nonlinear_arith)
        requires p > 0;
    assert((a.mantissa * p == 0) == (a.mantissa == 0)) by (nonlinear_arith)
        requires p > 0;
    assert((a.mantissa * p > 0) == (a.mantissa > 0)) by (nonlinear_arith)
        requires p > 0;
}

impl Amount {
    /// Whether the amount is below zero.
    pub fn is_sign_negative(&self) -> (r: bool)
        ensures
            r == (self.units() < 0),
    {
        proof {
            lemma_units_sign(*self);
        }
        self.mantissa < 0
    }

    /// The amount with its sign flipped.
    pub fn negated(&self) -> (r: Amount)
        requires
            self.wf(),
        ensures
            r.wf(),
            r.units() == -self.units(),
            r == self.negated_spec(),
    {
        let r = Amount { mantissa: -self.mantissa, scale: self.scale };
        proof {
            let p = pow10((MAX_SCALE - self.scale) as nat);
            assert((-self.mantissa) * p == -(self.mantissa * p)) by (nonlinear_arith);
        }
        r
    }

    /// Whether this amount is below `other` in value.
    pub fn less_than(&self, other: &Amount) -> (r: bool)
        requires
            self.wf(),
            other.wf(),
        ensures
            r == (self.units() < other.units()),
    {
        match decimal_cmp(self, other) {
            Ordering::Less => true,
            _ => false,
        }
    }

    /// The smaller of two amounts; the first one where they are equal.
    pub fn min(self, other: Amount) -> (r: Amount)
        requires
            self.wf(),
            other.wf(),
        ensures
            r == if self.units() <= other.units() { self } else { other },
    {
        match decimal_cmp(&self, &other) {
            Ordering::Greater => other,
            _ => self,
        }
    }

    /// The exact sum of two amounts, if rust_decimal can hold it without
    /// rounding.
    pub fn checked_sum(self, other: Amount) -> (r: Option<Amount>)
        requires
            self.wf(),
            other.wf(),
        ensures
            r is Some ==> r->0.wf() && r->0.units() == self.units() + other.units(),
            r is Some ==> r->0 == exact_sum(self, other),
            sum_fits(self, other) ==> r is Some,
    {
        proof {
            lemma_units_sign(self);
            lemma_units_sign(other);
        }
        match decimal_checked_add(self, other) {
            Some(c) => {
                if self.mantissa == 0 || other.mantissa == 0 || (c.scale >= self.scale
                    && c.scale >= other.scale && (c.scale == self.scale || c.scale
                    == other.scale)) {
                    proof {
                        if self.mantissa != 0 && other.mantissa != 0 {
                            let s = larger_scale(self, other);
                            assert(c.scale == s);
                            let p = pow10((MAX_SCALE - s) as nat);
                            lemma_pow10_positive((MAX_SCALE - s) as nat);
                            lemma_units_aligned(self, s);
                            lemma_units_aligned(other, s);
                            lemma_units_aligned(c, s);
                            assert(c.aligned(s) == c.mantissa * pow10(0)) by {
                                assert((s - c.scale) as nat == 0);
                            }
                            let x = c.mantissa as int;
                            let y = self.aligned(s) + other.aligned(s);
                            assert(x * p == self.aligned(s) * p + other.aligned(s) * p);
                            assert(x * p == y * p) by (nonlinear_arith)
                                requires x * p == self.aligned(s) * p + other.aligned(s) * p,
                                    y == self.aligned(s) + other.aligned(s);
                            assert(x == y) by (nonlinear_arith)
                                requires x * p == y * p, p > 0;
                        }
                    }
                    Some(c)
                } else {
                    None
                }
            },
            None => None,
        }
    }

    /// The exact difference `self - other`, if rust_decimal can hold it
    /// without rounding.
    pub fn checked_difference(self, other: Amount) -> (r: Option<Amount>)
        requires
            self.wf(),
            other.wf(),
        ensures
            r is Some ==> r->0.wf() && r->0.units() == self.units() - other.units(),
            r is Some ==> r->0 == exact_sum(self, other.negated_spec()),
            sum_fits(self, other.negated_spec()) ==> r is Some,
    {
        self.checked_sum(other.negated())
    }

    /// The amount with its sign flipped, as a value.
    pub open spec fn negated_spec(self) -> Amount {
        Amount { mantissa: (-self.mantissa) as i128, scale: self.scale }
    }

    /// Whether two amounts are equal in value (in representation, where one of
    /// them is out of range).
    pub open spec fn same_value(self, other: Amount) -> bool {
        if self.wf() && other.wf() {
            self.units() == other.units()
        } else {
            self.mantissa == other.mantissa && self.scale == other.scale
        }
    }

    /// Whether both the mantissa and the scale are within range.
    pub fn is_well_formed(&self) -> (r: bool)
        ensures
            r == self.wf(),
    {
        -MAX_MANTISSA <= self.mantissa && self.mantissa <= MAX_MANTISSA && self.scale <= MAX_SCALE
    }
}

impl PartialEq for Amount {
    fn eq(&self, other: &Amount) -> (r: bool)
        ensures
            r == self.same_value(*other),
    {
        if self.is_well_formed() && other.is_well_formed() {
            match decimal_cmp(self, other) {
                Ordering::Equal => true,
                _ => false,
            }
        } else {
            self.mantissa == other.mantissa && self.scale == other.scale
        }
    }
}

impl vstd::std_specs::cmp::PartialEqSpecImpl for Amount {
    open spec fn obeys_eq_spec() -> bool {
        true
    }

    open spec fn eq_spec(&self, other: &Amount) -> bool {
        self.same_value(*other)
    }
}

/// Powers of ten grow with the exponent.
pub proof fn lemma_pow10_monotonic(m: nat, n: nat)
    requires
        m <= n,
    ensures
        pow10(m) <= pow10(n),
    decreases n,
{
    if m < n {
        lemma_pow10_monotonic(m, (n - 1) as nat);
        lemma_pow10_positive((n - 1) as nat);
    }
}

/// Amounts with at most four decimal places and a mantissa of at most
/// `10^20` in size (values below `10^16`) always add exactly in rust_decimal.
pub proof fn lemma_moderate_amounts_fit(a: Amount, b: Amount)
    requires
        a.scale <= 4,
        b.scale <= 4,
        -100_000_000_000_000_000_000 <= a.mantissa <= 100_000_000_000_000_000_000,
        -100_000_000_000_000_000_000 <= b.mantissa <= 100_000_000_000_000_000_000,
    ensures
        sum_fits(a, b),
{
    let s = larger_scale(a, b);
    let pa = pow10((s - a.scale) as nat);
    let pb = pow10((s - b.scale) as nat);
    lemma_pow10_monotonic((s - a.scale) as nat, 4);
    lemma_pow10_monotonic((s - b.scale) as nat, 4);
    lemma_pow10_positive((s - a.scale) as nat);
    lemma_pow10_positive((s - b.scale) as nat);
    assert(pow10(4) == 10000) by {
        reveal_with_fuel(pow10, 5);
    }
    let bound: int = 100_000_000_000_000_000_000;
    assert(-bound * 10000 <= a.mantissa * pa <= bound * 10000) by (nonlinear_arith)
        requires -bound <= a.mantissa <= bound, 0 < pa <= 10000, bound > 0;
    assert(-bound * 10000 <= b.mantissa * pb <= bound * 10000) by (nonlinear_arith)
        requires -bound <= b.mantissa <= bound, 0 < pb <= 10000, bound > 0;
}

} // verus!
