use vstd::arithmetic::power2::{
    lemma2_to64, lemma_pow2_adds, lemma_pow2_pos, lemma_pow2_strictly_increases, lemma_pow2_unfold,
    pow2,
};
use vstd::prelude::*;

verus! {

/// The sign bit of a 32-bit IEEE 754 number.
pub const SIGN_BIT: u32 = 0x8000_0000;

/// The bit pattern of positive infinity; every magnitude above it is a NaN.
pub const INFINITY_BITS: u32 = 0x7f80_0000;

/// Two to the power of twenty-three: the weight of the exponent's lowest bit, and
/// the leading bit that a normal number's fraction does not spell out.
pub const HIDDEN_BIT: u32 = 0x80_0000;

/// The bit pattern of fifty.
pub const FIFTY_BITS: u32 = 0x4248_0000;

/// A 32-bit IEEE 754 number, held as its bit pattern: one sign bit, eight bits of
/// exponent, twenty-three bits of fraction.
///
/// `==` on this type compares bit patterns. The numeric comparisons are
/// [`Float32::gt`] and [`Float32::same_number`].
#[derive(Clone, Copy, Debug, PartialEq, Eq, Structural)]
pub struct Float32 {
    pub bits: u32,
}

impl Float32 {
    /// The bit pattern without its sign bit.
    pub open spec fn magnitude(self) -> int {
        if self.bits >= SIGN_BIT {
            self.bits - SIGN_BIT
        } else {
            self.bits as int
        }
    }

    /// Whether the sign bit is set.
    pub open spec fn is_negative(self) -> bool {
        self.bits >= SIGN_BIT
    }

    /// Whether the pattern is one of the NaNs.
    pub open spec fn is_nan(self) -> bool {
        self.magnitude() > INFINITY_BITS
    }

    /// The exponent field.
    pub open spec fn exponent(self) -> int {
        self.magnitude() / (HIDDEN_BIT as int)
    }

    /// The fraction field.
    pub open spec fn fraction(self) -> int {
        self.magnitude() % (HIDDEN_BIT as int)
    }

    /// The absolute value of the number, times two to the power of 149, which
    /// makes it a whole number: the fraction alone where the exponent field is
    /// zero, and the fraction with its leading bit, doubled once for each step
    /// of the exponent field above one, otherwise. Infinity comes out beyond
    /// every finite number.
    pub open spec fn scaled_magnitude(self) -> int {
        if self.exponent() == 0 {
            self.fraction()
        } else {
            (HIDDEN_BIT + self.fraction()) * pow2((self.exponent() - 1) as nat)
        }
    }

    /// The number, times two to the power of 149.
    pub open spec fn scaled(self) -> int {
        if self.is_negative() {
            -self.scaled_magnitude()
        } else {
            self.scaled_magnitude()
        }
    }

    /// The magnitude bits with the sign of the number: an integer that is easy to
    /// compute and that orders the patterns as the numbers they denote
    /// ([`lemma_rank_orders_as_numbers`]). Both zeros have rank zero.
    pub open spec fn rank(self) -> int {
        if self.is_negative() {
            -self.magnitude()
        } else {
            self.magnitude()
        }
    }

    /// IEEE 754 `>`: neither side is a NaN, and `self` denotes the greater
    /// number.
    pub open spec fn is_greater(self, other: Float32) -> bool {
        !self.is_nan() && !other.is_nan() && self.scaled() > other.scaled()
    }

    /// IEEE 754 `==`: neither side is a NaN, and both denote the same number. The
    /// two zeros are the same number.
    pub open spec fn is_same_number(self, other: Float32) -> bool {
        !self.is_nan() && !other.is_nan() && self.scaled() == other.scaled()
    }

    /// The number with the given bit pattern.
    pub fn from_bits(bits: u32) -> (r: Float32)
        ensures
            r.bits == bits,
    {
        Float32 { bits }
    }

    /// The bit pattern of the number.
    pub fn to_bits(self) -> (r: u32)
        ensures
            r == self.bits,
    {
        self.bits
    }

    /// Fifty, the threshold that holds where none is configured.
    pub fn fifty() -> (r: Float32)
        ensures
            r == Float32::spec_fifty(),
    {
        Float32 { bits: FIFTY_BITS }
    }

    /// Fifty.
    pub open spec fn spec_fifty() -> Float32 {
        Float32 { bits: FIFTY_BITS }
    }

    /// Whether the pattern is one of the NaNs.
    pub fn is_not_a_number(self) -> (r: bool)
        ensures
            r == self.is_nan(),
    {
        let magnitude: u32 = if self.bits >= SIGN_BIT {
            self.bits - SIGN_BIT
        } else {
            self.bits
        };
        magnitude > INFINITY_BITS
    }

    fn exec_rank(self) -> (r: i64)
        ensures
            r == self.rank(),
    {
        if self.bits >= SIGN_BIT {
            let magnitude: u32 = self.bits - SIGN_BIT;
            -(magnitude as i64)
        } else {
            self.bits as i64
        }
    }

    /// Whether `self` is greater than `other` as a number.
    pub fn gt(self, other: Float32) -> (r: bool)
        ensures
            r == self.is_greater(other),
    {
        proof {
            lemma_rank_orders_as_numbers(other, self);
        }
        !self.is_not_a_number() && !other.is_not_a_number() && self.exec_rank() > other.exec_rank()
    }

    /// Whether `self` and `other` are the same number.
    pub fn same_number(self, other: Float32) -> (r: bool)
        ensures
            r == self.is_same_number(other),
    {
        proof {
            lemma_rank_orders_as_numbers(other, self);
        }
        !self.is_not_a_number() && !other.is_not_a_number() && self.exec_rank() == other.exec_rank()
    }
}

/// Of two patterns the one with the greater magnitude bits denotes the greater
/// absolute value.
pub proof fn lemma_magnitude_orders_as_numbers(a: Float32, b: Float32)
    requires
        a.magnitude() < b.magnitude(),
    ensures
        0 <= a.scaled_magnitude() < b.scaled_magnitude(),
{
    let h = HIDDEN_BIT as int;
    let (e1, f1) = (a.exponent(), a.fraction());
    let (e2, f2) = (b.exponent(), b.fraction());
    assert(a.magnitude() == e1 * h + f1 && 0 <= f1 < h && 0 <= e1) by {
        assert(a.magnitude() == h * (a.magnitude() / h) + a.magnitude() % h) by (nonlinear_arith)
            requires
                h > 0,
        ;
        assert(0 <= a.magnitude() / h) by (nonlinear_arith)
            requires
                h > 0,
                a.magnitude() >= 0,
        ;
    }
    assert(b.magnitude() == e2 * h + f2 && 0 <= f2 < h && 0 <= e2) by {
        assert(b.magnitude() == h * (b.magnitude() / h) + b.magnitude() % h) by (nonlinear_arith)
            requires
                h > 0,
        ;
        assert(0 <= b.magnitude() / h) by (nonlinear_arith)
            requires
                h > 0,
                b.magnitude() >= 0,
        ;
    }
    assert(e1 <= e2) by (nonlinear_arith)
        requires
            e1 * h + f1 < e2 * h + f2,
            0 <= f1 < h,
            0 <= f2 < h,
    ;
    if e1 == 0 {
        if e2 > 0 {
            let high = pow2((e2 - 1) as nat) as int;
            lemma_pow2_pos((e2 - 1) as nat);
            assert((h + f2) * high >= h) by (nonlinear_arith)
                requires
                    high >= 1,
                    f2 >= 0,
                    h > 0,
            ;
        }
    } else {
        let low = pow2((e1 - 1) as nat) as int;
        let high = pow2((e2 - 1) as nat) as int;
        lemma_pow2_pos((e1 - 1) as nat);
        assert(0 <= (h + f1) * low) by (nonlinear_arith)
            requires
                low >= 1,
                f1 >= 0,
                h > 0,
        ;
        if e1 == e2 {
            assert((h + f1) * low < (h + f2) * low) by (nonlinear_arith)
                requires
                    low >= 1,
                    f1 < f2,
            ;
        } else {
            lemma_pow2_unfold(e1 as nat);
            if e1 < e2 - 1 {
                lemma_pow2_strictly_increases(e1 as nat, (e2 - 1) as nat);
            }
            assert(2 * low <= high);
            assert((h + f1) * low < (h + f2) * high) by (nonlinear_arith)
                requires
                    low >= 1,
                    2 * low <= high,
                    0 <= f1 < h,
                    0 <= f2,
            ;
        }
    }
}

/// The rank orders the patterns as the numbers they denote: a pattern has the
/// greater rank exactly where it denotes the greater number, and two patterns have
/// one rank exactly where they denote one number. So the order of the numbers can
/// be read off the bits.
pub proof fn lemma_rank_orders_as_numbers(a: Float32, b: Float32)
    ensures
        a.rank() < b.rank() <==> a.scaled() < b.scaled(),
        a.rank() == b.rank() <==> a.scaled() == b.scaled(),
{
    if a.magnitude() < b.magnitude() {
        lemma_magnitude_orders_as_numbers(a, b);
    }
    if b.magnitude() < a.magnitude() {
        lemma_magnitude_orders_as_numbers(b, a);
    }
    let zero = Float32 { bits: 0 };
    assert(zero.scaled_magnitude() == 0);
    if 0 < a.magnitude() {
        lemma_magnitude_orders_as_numbers(zero, a);
    }
    if 0 < b.magnitude() {
        lemma_magnitude_orders_as_numbers(zero, b);
    }
}

/// The pattern of fifty denotes fifty.
pub proof fn lemma_fifty_is_fifty()
    ensures
        !Float32::spec_fifty().is_nan(),
        Float32::spec_fifty().scaled() == 50 * pow2(149),
{
    let fifty = Float32::spec_fifty();
    assert(fifty.exponent() == 132);
    assert(fifty.fraction() == 0x48_0000);
    lemma2_to64();
    lemma_pow2_adds(18, 131);
    let p = pow2(131) as int;
    assert((HIDDEN_BIT + 0x48_0000) * p == 50 * (0x4_0000 * p)) by (nonlinear_arith);
}

/// No number is greater than itself, and of two numbers at most one is the greater.
pub proof fn lemma_greater_is_strict(a: Float32, b: Float32)
    ensures
        !a.is_greater(a),
        a.is_greater(b) ==> !b.is_greater(a),
        a.is_same_number(b) ==> !a.is_greater(b) && !b.is_greater(a),
{
}

/// Two numbers of which neither is a NaN are the same or one is the greater.
pub proof fn lemma_greater_is_total(a: Float32, b: Float32)
    requires
        !a.is_nan(),
        !b.is_nan(),
    ensures
        a.is_greater(b) || b.is_greater(a) || a.is_same_number(b),
{
}

/// The order passes on: above a number that is above a third is above the third.
pub proof fn lemma_greater_is_transitive(a: Float32, b: Float32, c: Float32)
    requires
        a.is_greater(b),
        b.is_greater(c),
    ensures
        a.is_greater(c),
{
}

} // verus!
