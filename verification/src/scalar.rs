use vstd::prelude::*;

verus! {

/// The bit that carries the sign of a binary32 value.
pub const SIGN_BIT: u32 = 0x8000_0000;

/// The bit pattern of positive infinity; every larger magnitude is a NaN.
pub const INFINITY_BITS: u32 = 0x7f80_0000;

/// The bit pattern of 1.0.
pub const ONE_BITS: u32 = 0x3f80_0000;

/// The bit pattern of 1e-8, below which a component counts as zero.
pub const NEAR_ZERO_BITS: u32 = 0x322b_cc77;

/// An IEEE-754 binary32 number, held as its bit pattern.
///
/// `==` on a `Scalar` compares bit patterns, so `-0.0` and `0.0` differ and a
/// NaN is equal to itself. The numeric comparisons are `lt` and `le`.
#[derive(Clone, Copy, Debug, PartialEq, Eq, Structural)]
pub struct Scalar {
    pub bits: u32,
}

impl Scalar {
    /// Whether the sign bit is set.
    pub open spec fn negative(self) -> bool {
        self.bits >= SIGN_BIT
    }

    /// The pattern without its sign bit.
    pub open spec fn magnitude(self) -> int {
        if self.negative() {
            self.bits - SIGN_BIT
        } else {
            self.bits as int
        }
    }

    /// Whether the pattern is a NaN: all exponent bits set and a fraction that is not zero.
    pub open spec fn nan(self) -> bool {
        self.magnitude() > INFINITY_BITS
    }

    /// The place of a number on the number line, counted in representable
    /// steps from zero. Both zeros have rank 0; for two numbers that are not
    /// NaN the smaller one has the smaller rank.
    pub open spec fn rank(self) -> int {
        if self.negative() {
            -self.magnitude()
        } else {
            self.magnitude()
        }
    }

    /// `self < other` as IEEE-754 compares: false whenever a NaN takes part.
    pub open spec fn spec_lt(self, other: Scalar) -> bool {
        !self.nan() && !other.nan() && self.rank() < other.rank()
    }

    /// `self <= other` as IEEE-754 compares: false whenever a NaN takes part.
    pub open spec fn spec_le(self, other: Scalar) -> bool {
        !self.nan() && !other.nan() && self.rank() <= other.rank()
    }

    /// The smaller of two numbers; a NaN gives way to the other operand.
    pub open spec fn spec_min(self, other: Scalar) -> Scalar {
        if self.nan() {
            other
        } else if other.spec_lt(self) {
            other
        } else {
            self
        }
    }

    /// The larger of two numbers; a NaN gives way to the other operand.
    pub open spec fn spec_max(self, other: Scalar) -> Scalar {
        if self.nan() {
            other
        } else if self.spec_lt(other) {
            other
        } else {
            self
        }
    }

    /// The pattern with its sign bit cleared.
    pub open spec fn spec_abs(self) -> Scalar {
        Scalar { bits: self.magnitude() as u32 }
    }

    /// The pattern with its sign bit flipped.
    pub open spec fn spec_neg(self) -> Scalar {
        if self.negative() {
            Scalar { bits: (self.bits - SIGN_BIT) as u32 }
        } else {
            Scalar { bits: (self.bits + SIGN_BIT) as u32 }
        }
    }

    /// The key of a total order on all patterns: negative NaNs, then the
    /// numbers from negative infinity up to `-0.0`, then `0.0` up to positive
    /// infinity, then positive NaNs.
    pub open spec fn spec_ordered_key(self) -> u32 {
        if self.negative() {
            (u32::MAX - self.bits) as u32
        } else {
            (self.bits + SIGN_BIT) as u32
        }
    }

    /// The scalar with the given bit pattern.
    pub fn from_bits(bits: u32) -> (r: Scalar)
        ensures
            r.bits == bits,
    {
        Scalar { bits }
    }

    /// The bit pattern of the scalar.
    pub fn to_bits(self) -> (bits: u32)
        ensures
            bits == self.bits,
    {
        self.bits
    }

    /// Positive zero.
    pub fn zero() -> (r: Scalar)
        ensures
            r.bits == 0,
            !r.nan(),
            r.rank() == 0,
    {
        Scalar { bits: 0 }
    }

    /// The number 1.
    pub fn one() -> (r: Scalar)
        ensures
            r.bits == ONE_BITS,
            !r.nan(),
    {
        Scalar { bits: ONE_BITS }
    }

    /// Positive infinity, the upper end of every search window.
    pub fn infinity() -> (r: Scalar)
        ensures
            r.bits == INFINITY_BITS,
            !r.nan(),
            forall|s: Scalar| !s.nan() ==> s.spec_le(r),
    {
        Scalar { bits: INFINITY_BITS }
    }

    /// Whether the sign bit is set.
    pub fn is_negative(self) -> (r: bool)
        ensures
            r == self.negative(),
    {
        self.bits >= SIGN_BIT
    }

    /// Whether the pattern is a NaN.
    pub fn is_nan(self) -> (r: bool)
        ensures
            r == self.nan(),
    {
        let magnitude: u32 = if self.bits >= SIGN_BIT {
            self.bits - SIGN_BIT
        } else {
            self.bits
        };
        magnitude > INFINITY_BITS
    }

    /// The rank as a machine integer.
    fn rank_i64(self) -> (r: i64)
        ensures
            r == self.rank(),
    {
        if self.bits >= SIGN_BIT {
            -((self.bits - SIGN_BIT) as i64)
        } else {
            self.bits as i64
        }
    }

    /// `self < other` as IEEE-754 compares.
    #[verifier::when_used_as_spec(spec_lt)]
    pub fn lt(self, other: Scalar) -> (r: bool)
        ensures
            r == self.spec_lt(other),
    {
        !self.is_nan() && !other.is_nan() && self.rank_i64() < other.rank_i64()
    }

    /// `self <= other` as IEEE-754 compares.
    #[verifier::when_used_as_spec(spec_le)]
    pub fn le(self, other: Scalar) -> (r: bool)
        ensures
            r == self.spec_le(other),
    {
        !self.is_nan() && !other.is_nan() && self.rank_i64() <= other.rank_i64()
    }

    /// The smaller of two numbers; a NaN gives way to the other operand.
    #[verifier::when_used_as_spec(spec_min)]
    pub fn min(self, other: Scalar) -> (r: Scalar)
        ensures
            r == self.spec_min(other),
    {
        if self.is_nan() {
            other
        } else if other.lt(self) {
            other
        } else {
            self
        }
    }

    /// The larger of two numbers; a NaN gives way to the other operand.
    #[verifier::when_used_as_spec(spec_max)]
    pub fn max(self, other: Scalar) -> (r: Scalar)
        ensures
            r == self.spec_max(other),
    {
        if self.is_nan() {
            other
        } else if self.lt(other) {
            other
        } else {
            self
        }
    }

    /// The pattern with its sign bit cleared.
    #[verifier::when_used_as_spec(spec_abs)]
    pub fn abs(self) -> (r: Scalar)
        ensures
            r == self.spec_abs(),
    {
        if self.bits >= SIGN_BIT {
            Scalar { bits: self.bits - SIGN_BIT }
        } else {
            self
        }
    }

    /// The pattern with its sign bit flipped.
    #[verifier::when_used_as_spec(spec_neg)]
    pub fn neg(self) -> (r: Scalar)
        ensures
            r == self.spec_neg(),
    {
        let bits = self.bits;
        assert(bits ^ 0x8000_0000u32 == (if bits >= 0x8000_0000u32 {
            (bits - 0x8000_0000u32) as u32
        } else {
            (bits + 0x8000_0000u32) as u32
        })) by (bit_vector);
        Scalar { bits: bits ^ SIGN_BIT }
    }

    /// The key of the pattern in the total order of all patterns.
    #[verifier::when_used_as_spec(spec_ordered_key)]
    pub fn ordered_key(self) -> (key: u32)
        ensures
            key == self.spec_ordered_key(),
    {
        let bits = self.bits;
        assert((bits & 0x8000_0000u32 == 0) == (bits < 0x8000_0000u32)) by (bit_vector);
        assert(bits < 0x8000_0000u32 ==> bits | 0x8000_0000u32 == bits + 0x8000_0000u32)
            by (bit_vector);
        assert(!bits == 0xffff_ffffu32 - bits) by (bit_vector);
        if bits & SIGN_BIT == 0 {
            bits | SIGN_BIT
        } else {
            !bits
        }
    }
}

/// Negation changes the sign of the rank and nothing else: it keeps NaNs NaN
/// and undoes itself.
pub proof fn lemma_neg(a: Scalar)
    ensures
        a.spec_neg().rank() == -a.rank(),
        a.spec_neg().nan() == a.nan(),
        a.spec_neg().spec_neg() == a,
{
}

/// Among numbers, `lt` is a strict order and `le` is its reflexive closure,
/// and any two numbers are comparable.
pub proof fn lemma_order(a: Scalar, b: Scalar, c: Scalar)
    requires
        !a.nan(),
        !b.nan(),
        !c.nan(),
    ensures
        !a.spec_lt(a),
        a.spec_le(a),
        a.spec_lt(b) && b.spec_lt(c) ==> a.spec_lt(c),
        a.spec_le(b) && b.spec_le(c) ==> a.spec_le(c),
        a.spec_le(b) == !b.spec_lt(a),
        a.spec_lt(b) ==> a.spec_le(b),
{
}

/// `min` and `max` of two operands are one of them, and where both are numbers
/// they bound both.
pub proof fn lemma_min_max(a: Scalar, b: Scalar)
    ensures
        a.spec_min(b) == a || a.spec_min(b) == b,
        a.spec_max(b) == a || a.spec_max(b) == b,
        !b.nan() ==> !a.spec_min(b).nan() && !a.spec_max(b).nan(),
        !a.nan() && !b.nan() ==> a.spec_min(b).spec_le(a) && a.spec_min(b).spec_le(b),
        !a.nan() && !b.nan() ==> a.spec_le(a.spec_max(b)) && b.spec_le(a.spec_max(b)),
{
}

/// The total order of `ordered_key` agrees with the numeric order: a smaller
/// number has a smaller key, and the key tells apart any two patterns.
pub proof fn lemma_ordered_key(a: Scalar, b: Scalar)
    ensures
        a.spec_lt(b) ==> a.spec_ordered_key() < b.spec_ordered_key(),
        !a.nan() && !b.nan() && a.spec_ordered_key() <= b.spec_ordered_key() ==> a.spec_le(b),
        a.spec_ordered_key() == b.spec_ordered_key() ==> a == b,
{
}

} // verus!
