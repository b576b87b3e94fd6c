//! Measured and priced quantities.
//!
//! Readings, unit rates and multipliers are IEEE 754 binary64 numbers. The
//! library never computes with them: it stores them, hands them back and
//! orders them. A [`Quantity`] therefore holds the number by its bit pattern,
//! and everything said about it here is integer arithmetic on that pattern.

use core::cmp::Ordering;
use vstd::arithmetic::power2::lemma_pow2_pos;
use vstd::arithmetic::power2::lemma_pow2_strictly_increases;
use vstd::arithmetic::power2::lemma_pow2_unfold;
use vstd::arithmetic::power2::pow2;
use vstd::prelude::*;
use vstd::std_specs::cmp::PartialEqSpecImpl;
use vstd::std_specs::cmp::PartialOrdSpecImpl;

verus! {

/// The pattern whose only set bit is the sign.
pub const SIGN_BIT: u64 = 0x8000_0000_0000_0000;

/// The pattern of positive infinity: all exponent bits set, no fraction bit.
pub const INFINITY_BITS: u64 = 0x7ff0_0000_0000_0000;

/// The weight of the lowest exponent bit of a pattern, 2^52: the fraction is
/// what lies below it.
pub const FRACTION_RANGE: u64 = 0x0010_0000_0000_0000;

/// A binary64 number, held by its bit pattern.
#[derive(Clone, Copy, Debug)]
pub struct Quantity {
    pub bits: u64,
}

impl Quantity {
    /// The pattern without its sign bit.
    pub open spec fn magnitude(self) -> int {
        if self.bits < SIGN_BIT {
            self.bits as int
        } else {
            self.bits - SIGN_BIT
        }
    }

    /// Whether the pattern denotes a number, finite or infinite, as opposed
    /// to a NaN.
    pub open spec fn is_number(self) -> bool {
        self.magnitude() <= INFINITY_BITS
    }

    /// The place of the pattern in the ascending order of quantities.
    ///
    /// Binary64 is a sign-and-magnitude format, so among numbers a larger
    /// magnitude is a larger value when the sign is clear and a smaller one
    /// when it is set, and both zeros have magnitude zero. The key is the
    /// signed magnitude: two numbers compare as their keys do, which
    /// `lemma_keys_order_as_values` proves of the finite ones. A NaN gets a
    /// key as well, beyond the infinity of its sign, so that keys order every
    /// pattern.
    pub open spec fn order_key(self) -> int {
        if self.bits < SIGN_BIT {
            self.magnitude()
        } else {
            -self.magnitude()
        }
    }

    /// The exponent field of the pattern.
    pub open spec fn exponent(self) -> int {
        self.magnitude() / (FRACTION_RANGE as int)
    }

    /// The fraction field of the pattern.
    pub open spec fn fraction(self) -> int {
        self.magnitude() % (FRACTION_RANGE as int)
    }

    /// Whether the pattern denotes a finite number.
    pub open spec fn is_finite(self) -> bool {
        self.magnitude() < INFINITY_BITS
    }

    /// The absolute value of the finite number that the pattern denotes, in
    /// units of 2^-1074, the smallest positive binary64 number: every finite
    /// binary64 number is a whole number of these. With exponent field zero
    /// the number is subnormal and its size is the fraction; otherwise the
    /// fraction gets its leading bit, and the exponent doubles the size with
    /// every step.
    pub open spec fn scaled_size(self) -> int {
        if self.exponent() == 0 {
            self.fraction()
        } else {
            (FRACTION_RANGE + self.fraction()) * pow2((self.exponent() - 1) as nat)
        }
    }

    /// The finite number that the pattern denotes, in units of 2^-1074.
    pub open spec fn scaled_value(self) -> int {
        if self.bits < SIGN_BIT {
            self.scaled_size()
        } else {
            -self.scaled_size()
        }
    }

    /// Whether two quantities are equal as numbers: both are numbers, with
    /// the same key. The two zeros are equal, and a NaN equals nothing.
    pub open spec fn equals(self, other: Quantity) -> bool {
        self.is_number() && other.is_number() && self.order_key() == other.order_key()
    }

    /// How two quantities compare as numbers: by their keys, and not at all
    /// when either is a NaN.
    pub open spec fn compare(self, other: Quantity) -> Option<Ordering> {
        if !self.is_number() || !other.is_number() {
            None
        } else if self.order_key() < other.order_key() {
            Some(Ordering::Less)
        } else if self.order_key() == other.order_key() {
            Some(Ordering::Equal)
        } else {
            Some(Ordering::Greater)
        }
    }

    /// The quantity with the given bit pattern.
    pub fn from_bits(bits: u64) -> (q: Quantity)
        ensures
            q.bits == bits,
    {
        Quantity { bits }
    }

    /// The bit pattern of the quantity.
    pub fn to_bits(&self) -> (bits: u64)
        ensures
            bits == self.bits,
    {
        self.bits
    }

    /// Whether the quantity is a NaN.
    pub fn is_nan(&self) -> (nan: bool)
        ensures
            nan == !self.is_number(),
    {
        if self.bits < SIGN_BIT {
            self.bits > INFINITY_BITS
        } else {
            self.bits - SIGN_BIT > INFINITY_BITS
        }
    }

    /// The order key of the quantity.
    pub fn key(&self) -> (key: i64)
        ensures
            key == self.order_key(),
    {
        if self.bits < SIGN_BIT {
            self.bits as i64
        } else {
            let magnitude: u64 = self.bits - SIGN_BIT;
            -(magnitude as i64)
        }
    }
}

/// Keys order finite quantities as the numbers that they denote: the key of
/// one is less than the key of another exactly when its number is less, and
/// the keys are equal exactly when the numbers are. The keys of the
/// infinities lie beyond those of all finite quantities.
pub proof fn lemma_keys_order_as_values(a: Quantity, b: Quantity)
    requires
        a.is_finite(),
        b.is_finite(),
    ensures
        a.order_key() < b.order_key() <==> a.scaled_value() < b.scaled_value(),
        a.order_key() == b.order_key() <==> a.scaled_value() == b.scaled_value(),
        -INFINITY_BITS < a.order_key() < INFINITY_BITS,
{
    lemma_size_grows_with_magnitude(a, b);
    lemma_size_grows_with_magnitude(b, a);
    lemma_size_of_zero(a);
    lemma_size_of_zero(b);
}

/// Only the zeros have size zero, and no size is negative.
proof fn lemma_size_of_zero(a: Quantity)
    requires
        a.is_finite(),
    ensures
        a.scaled_size() >= 0,
        a.scaled_size() == 0 <==> a.magnitude() == 0,
{
    let range = FRACTION_RANGE as int;
    let exponent = a.exponent();
    let fraction = a.fraction();
    if exponent > 0 {
        let doubling = pow2((exponent - 1) as nat) as int;
        lemma_pow2_pos((exponent - 1) as nat);
        assert((range + fraction) * doubling > 0) by (nonlinear_arith)
            requires
                range + fraction > 0,
                doubling > 0,
        {
        }
    }
}

/// Of two finite quantities the one with the larger magnitude has the larger
/// size.
proof fn lemma_size_grows_with_magnitude(a: Quantity, b: Quantity)
    requires
        a.is_finite(),
        b.is_finite(),
    ensures
        a.magnitude() < b.magnitude() ==> a.scaled_size() < b.scaled_size(),
        a.magnitude() == b.magnitude() ==> a.scaled_size() == b.scaled_size(),
{
    let range = FRACTION_RANGE as int;
    let low_exponent = a.exponent();
    let low_fraction = a.fraction();
    let high_exponent = b.exponent();
    let high_fraction = b.fraction();
    if a.magnitude() < b.magnitude() {
        assert(low_exponent <= high_exponent);
        if low_exponent == high_exponent {
            assert(low_fraction < high_fraction);
            if low_exponent > 0 {
                let doubling = pow2((low_exponent - 1) as nat) as int;
                lemma_pow2_pos((low_exponent - 1) as nat);
                assert((range + low_fraction) * doubling < (range + high_fraction) * doubling)
                    by (nonlinear_arith)
                    requires
                        low_fraction < high_fraction,
                        doubling > 0,
                {
                }
            }
        } else {
            let high_doubling = pow2((high_exponent - 1) as nat) as int;
            lemma_pow2_pos((high_exponent - 1) as nat);
            assert(range * high_doubling <= (range + high_fraction) * high_doubling)
                by (nonlinear_arith)
                requires
                    high_fraction >= 0,
                    high_doubling > 0,
            {
            }
            if low_exponent == 0 {
                assert(range <= range * high_doubling) by (nonlinear_arith)
                    requires
                        range > 0,
                        high_doubling >= 1,
                {
                }
            } else {
                let low_doubling = pow2((low_exponent - 1) as nat) as int;
                lemma_pow2_pos((low_exponent - 1) as nat);
                lemma_pow2_unfold(low_exponent as nat);
                if low_exponent < high_exponent - 1 {
                    lemma_pow2_strictly_increases(low_exponent as nat, (high_exponent - 1) as nat);
                }
                assert(2 * low_doubling <= high_doubling);
                assert((range + low_fraction) * low_doubling < range * high_doubling)
                    by (nonlinear_arith)
                    requires
                        low_fraction < range,
                        low_doubling > 0,
                        2 * low_doubling <= high_doubling,
                        range > 0,
                {
                }
            }
        }
    }
}

/// Comparison and equality of quantities fit together: two quantities are
/// equal exactly when they compare as equal, one is less than the other
/// exactly when the other is greater than it, and of two numbers one is less
/// than, equal to or greater than the other.
pub proof fn lemma_compare_is_consistent(a: Quantity, b: Quantity)
    ensures
        a.equals(b) <==> a.compare(b) == Some(Ordering::Equal),
        a.equals(b) <==> b.equals(a),
        a.compare(b) == Some(Ordering::Less) <==> b.compare(a) == Some(Ordering::Greater),
        a.compare(b) is Some <==> a.is_number() && b.is_number(),
        a.is_number() ==> a.equals(a),
{
}

/// Less-than-or-equal on numbers is transitive, and follows the keys.
pub proof fn lemma_compare_is_transitive(a: Quantity, b: Quantity, c: Quantity)
    requires
        a.compare(b) == Some(Ordering::Less) || a.compare(b) == Some(Ordering::Equal),
        b.compare(c) == Some(Ordering::Less) || b.compare(c) == Some(Ordering::Equal),
    ensures
        a.compare(c) == Some(Ordering::Less) || a.compare(c) == Some(Ordering::Equal),
        a.order_key() <= b.order_key() <= c.order_key(),
        a.compare(b) == Some(Ordering::Less) || b.compare(c) == Some(Ordering::Less) ==> a.compare(c)
            == Some(Ordering::Less),
{
}

impl PartialEq for Quantity {
    /// Equality of numbers: the two zeros are equal, a NaN equals nothing.
    fn eq(&self, other: &Quantity) -> (equal: bool) {
        !self.is_nan() && !other.is_nan() && self.key() == other.key()
    }
}

impl PartialEqSpecImpl for Quantity {
    open spec fn obeys_eq_spec() -> bool {
        true
    }

    open spec fn eq_spec(&self, other: &Quantity) -> bool {
        self.equals(*other)
    }
}

impl PartialOrd for Quantity {
    /// Comparison of numbers; `None` when either quantity is a NaN.
    fn partial_cmp(&self, other: &Quantity) -> (order: Option<Ordering>) {
        if self.is_nan() || other.is_nan() {
            None
        } else if self.key() < other.key() {
            Some(Ordering::Less)
        } else if self.key() == other.key() {
            Some(Ordering::Equal)
        } else {
            Some(Ordering::Greater)
        }
    }
}

impl PartialOrdSpecImpl for Quantity {
    open spec fn obeys_partial_cmp_spec() -> bool {
        true
    }

    open spec fn partial_cmp_spec(&self, other: &Quantity) -> Option<Ordering> {
        self.compare(*other)
    }
}

} // verus!
