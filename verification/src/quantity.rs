//! Numbers of double precision, held by their bits.
use crate::value::Value;
use vstd::arithmetic::power2::{lemma_pow2_adds, lemma_pow2_pos, lemma_pow2_strictly_increases, pow2};
use vstd::prelude::*;

verus! {

/// The bits that hold the fraction count up to this.
pub const FRACTIONS: u64 = 0x10_0000_0000_0000;

/// The bit of the sign.
pub const SIGN: u64 = 0x8000_0000_0000_0000;

/// The bits of one hundred.
pub const HUNDRED_BITS: u64 = 0x4059_0000_0000_0000;

/// A number of double precision: a sign bit, eleven bits of exponent, 52 bits of fraction.
#[derive(Clone, Copy, Debug)]
pub struct Quantity {
    pub bits: u64,
}

impl DeepView for Quantity {
    type V = Quantity;

    open spec fn deep_view(&self) -> Quantity {
        *self
    }
}

impl Value for Quantity {
    fn copied(&self) -> (result: Self) {
        *self
    }

    fn same(&self, other: &Self) -> (result: bool) {
        self.bits == other.bits
    }
}

/// Equal as numbers: the two zeros are equal, and what is no number is not even equal to itself.
impl PartialEq for Quantity {
    fn eq(&self, other: &Self) -> (result: bool) {
        self.equals(*other)
    }
}

impl vstd::std_specs::cmp::PartialEqSpecImpl for Quantity {
    open spec fn obeys_eq_spec() -> bool {
        true
    }

    open spec fn eq_spec(&self, other: &Self) -> bool {
        self.equal_to(*other)
    }
}

impl Quantity {
    pub open spec fn hundred() -> Quantity {
        Quantity { bits: HUNDRED_BITS }
    }

    pub open spec fn negative(self) -> bool {
        self.bits >= SIGN
    }

    /// The bits without the sign.
    pub open spec fn unsigned(self) -> nat {
        if self.bits >= SIGN {
            (self.bits - SIGN) as nat
        } else {
            self.bits as nat
        }
    }

    pub open spec fn exponent(self) -> nat {
        self.unsigned() / FRACTIONS as nat
    }

    pub open spec fn fraction(self) -> nat {
        self.unsigned() % FRACTIONS as nat
    }

    /// Neither an infinity nor no number at all.
    pub open spec fn finite(self) -> bool {
        self.exponent() != 2047
    }

    /// No number at all.
    pub open spec fn undefined(self) -> bool {
        self.exponent() == 2047 && self.fraction() != 0
    }

    /// How large a finite number is, in units of `2^-1074`, of which every finite number is a
    /// multiple.
    pub open spec fn magnitude(self) -> nat {
        if self.exponent() == 0 {
            self.fraction()
        } else {
            (FRACTIONS + self.fraction()) as nat * pow2((self.exponent() - 1) as nat)
        }
    }

    /// A finite number, in units of `2^-1074`.
    pub open spec fn value(self) -> int {
        if self.negative() {
            -(self.magnitude() as int)
        } else {
            self.magnitude() as int
        }
    }

    /// The place of a number among all numbers.
    pub open spec fn rank(self) -> int {
        if self.negative() {
            -(self.unsigned() as int)
        } else {
            self.unsigned() as int
        }
    }

    /// `self >= limit`, which does not hold where either is no number.
    pub open spec fn at_least(self, limit: Quantity) -> bool {
        !self.undefined() && !limit.undefined() && self.rank() >= limit.rank()
    }

    /// `self == other`, which does not hold where either is no number.
    pub open spec fn equal_to(self, other: Quantity) -> bool {
        !self.undefined() && !other.undefined() && self.rank() == other.rank()
    }

    /// Finite and above zero.
    pub open spec fn positive(self) -> bool {
        self.finite() && self.rank() > 0
    }

    /// Finite and not below zero.
    pub open spec fn not_negative(self) -> bool {
        self.finite() && self.rank() >= 0
    }

    /// Finite, above zero, and at most a hundred.
    pub open spec fn percentage(self) -> bool {
        self.positive() && self.rank() <= Quantity::hundred().rank()
    }

    fn unsigned_bits(self) -> (result: u64)
        ensures
            result == self.unsigned(),
            result < SIGN,
    {
        if self.bits >= SIGN {
            self.bits - SIGN
        } else {
            self.bits
        }
    }

    fn signed_rank(self) -> (result: i128)
        ensures
            result == self.rank(),
    {
        let size: i128 = self.unsigned_bits() as i128;
        if self.bits >= SIGN {
            -size
        } else {
            size
        }
    }

    pub fn is_finite(self) -> (result: bool)
        ensures
            result == self.finite(),
    {
        self.unsigned_bits() / FRACTIONS != 2047
    }

    pub fn is_undefined(self) -> (result: bool)
        ensures
            result == self.undefined(),
    {
        self.unsigned_bits() / FRACTIONS == 2047 && self.unsigned_bits() % FRACTIONS != 0
    }

    /// `self >= limit`.
    pub fn is_at_least(self, limit: Quantity) -> (result: bool)
        ensures
            result == self.at_least(limit),
    {
        !self.is_undefined() && !limit.is_undefined() && self.signed_rank() >= limit.signed_rank()
    }

    fn equals(self, other: Quantity) -> (result: bool)
        ensures
            result == self.equal_to(other),
    {
        !self.is_undefined() && !other.is_undefined() && self.signed_rank() == other.signed_rank()
    }

    /// Whether the number is finite and above zero.
    pub fn is_positive(self) -> (result: bool)
        ensures
            result == self.positive(),
    {
        self.is_finite() && self.signed_rank() > 0
    }

    /// Whether the number is finite and not below zero.
    pub fn is_not_negative(self) -> (result: bool)
        ensures
            result == self.not_negative(),
    {
        self.is_finite() && self.signed_rank() >= 0
    }

    /// Whether the number is finite, above zero and at most a hundred.
    pub fn is_percentage(self) -> (result: bool)
        ensures
            result == self.percentage(),
    {
        self.is_positive() && self.signed_rank() <= (Quantity { bits: HUNDRED_BITS }).signed_rank()
    }
}

proof fn lemma_magnitude_grows(a: Quantity, b: Quantity)
    requires
        a.unsigned() < b.unsigned(),
    ensures
        a.magnitude() < b.magnitude(),
{
    let f = FRACTIONS as int;
    let (ea, eb) = (a.exponent() as int, b.exponent() as int);
    let (fa, fb) = (a.fraction() as int, b.fraction() as int);
    assert(a.unsigned() == ea * f + fa && b.unsigned() == eb * f + fb) by {
        vstd::arithmetic::div_mod::lemma_fundamental_div_mod(a.unsigned() as int, f);
        vstd::arithmetic::div_mod::lemma_fundamental_div_mod(b.unsigned() as int, f);
    }
    assert(0 <= fa < f && 0 <= fb < f);
    assert(ea <= eb) by (nonlinear_arith)
        requires
            ea * f + fa < eb * f + fb,
            0 <= fa < f,
            0 <= fb < f,
    ;
    if ea == eb {
        assert(fa < fb);
        if ea > 0 {
            let p = pow2((ea - 1) as nat) as int;
            lemma_pow2_pos((ea - 1) as nat);
            assert((f + fa) * p < (f + fb) * p) by (nonlinear_arith)
                requires
                    fa < fb,
                    p > 0,
            ;
        }
    } else {
        let q = pow2((eb - 1) as nat) as int;
        lemma_pow2_pos((eb - 1) as nat);
        assert((f + fb) * q >= f * q) by (nonlinear_arith)
            requires
                fb >= 0,
                q > 0,
        ;
        if ea == 0 {
            assert(f * q >= f) by (nonlinear_arith)
                requires
                    q >= 1,
                    f > 0,
            ;
        } else {
            let p = pow2((ea - 1) as nat) as int;
            lemma_pow2_pos((ea - 1) as nat);
            assert(2 * p <= q) by {
                lemma_pow2_adds(1, (ea - 1) as nat);
                vstd::arithmetic::power2::lemma2_to64();
                if ea < eb - 1 {
                    lemma_pow2_strictly_increases(ea as nat, (eb - 1) as nat);
                }
            }
            assert((f + fa) * p < f * q) by (nonlinear_arith)
                requires
                    fa < f,
                    p > 0,
                    2 * p <= q,
                    f > 0,
            ;
        }
    }
}

/// The order of finite numbers is that of their ranks, and so is their equality.
pub proof fn ranks_follow_values(a: Quantity, b: Quantity)
    requires
        a.finite(),
        b.finite(),
    ensures
        a.value() <= b.value() <==> a.rank() <= b.rank(),
        a.at_least(b) <==> a.value() >= b.value(),
        a.equal_to(b) <==> a.value() == b.value(),
{
    let zero = Quantity { bits: 0 };
    if a.unsigned() < b.unsigned() {
        lemma_magnitude_grows(a, b);
    } else if b.unsigned() < a.unsigned() {
        lemma_magnitude_grows(b, a);
    }
    if a.unsigned() > 0 {
        lemma_magnitude_grows(zero, a);
    }
    if b.unsigned() > 0 {
        lemma_magnitude_grows(zero, b);
    }
}

/// A hundred is a hundred, and a percentage is a number above zero and at most a hundred.
pub proof fn percentages_end_at_a_hundred(a: Quantity)
    requires
        a.finite(),
    ensures
        Quantity::hundred().value() == 100 * pow2(1074),
        a.percentage() <==> 0 < a.value() <= 100 * pow2(1074),
{
    assert(Quantity::hundred().unsigned() == 1029 * FRACTIONS + 0x9_0000_0000_0000);
    lemma_pow2_adds(16, 32);
    lemma_pow2_adds(48, 1028);
    lemma_pow2_adds(2, 1074);
    vstd::arithmetic::power2::lemma2_to64();
    let p = pow2(1028) as int;
    assert(0x19_0000_0000_0000 * p == 25 * (0x1_0000_0000_0000 * p)) by (nonlinear_arith);
    assert(pow2(48) == 0x1_0000_0000_0000);
    ranks_follow_values(a, Quantity::hundred());
    let zero = Quantity { bits: 0 };
    ranks_follow_values(a, zero);
}

/// A number is above zero, or not below zero, as its value is, and only a finite number is either.
pub proof fn signs_follow_values(a: Quantity)
    ensures
        a.positive() <==> a.finite() && a.value() > 0,
        a.not_negative() <==> a.finite() && a.value() >= 0,
{
    let zero = Quantity { bits: 0 };
    if a.finite() {
        ranks_follow_values(a, zero);
    }
}

/// What is no number reaches no limit and is equal to nothing, and no number reaches it.
pub proof fn what_is_no_number_compares_with_nothing(a: Quantity, b: Quantity)
    requires
        a.undefined() || b.undefined(),
    ensures
        !a.at_least(b),
        !a.equal_to(b),
{
}

/// The sign bit turns a number around, and changes nothing else about it.
pub proof fn the_sign_bit_turns_a_number_around(bits: u64)
    requires
        bits < SIGN,
    ensures
        ({
            let plain = Quantity { bits };
            let turned = Quantity { bits: (bits + SIGN) as u64 };
            &&& turned.value() == -plain.value()
            &&& plain.value() >= 0
            &&& turned.finite() == plain.finite()
            &&& turned.undefined() == plain.undefined()
            &&& turned.negative() && !plain.negative()
        }),
{
}

/// What is no number has all bits of the exponent set and some of the fraction; an infinity has none
/// of the fraction; every other number is finite.
pub proof fn all_exponent_bits_mark_what_is_not_finite(a: Quantity)
    requires
        a.bits < SIGN,
    ensures
        a.finite() <==> a.bits < 0x7ff0_0000_0000_0000,
        a.undefined() <==> a.bits > 0x7ff0_0000_0000_0000,
{
}

} // verus!
