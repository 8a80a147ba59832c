//! Similarity scores and their order.
//!
//! A score is carried as the bit pattern of an IEEE-754 single-precision
//! number, the form in which the host hands over a cosine similarity. Its
//! order is read off the bits: sign and magnitude, with both zeros equal and
//! not-a-number comparable to nothing.

use vstd::arithmetic::power2::{
    lemma2_to64, lemma_pow2_adds, lemma_pow2_pos, lemma_pow2_strictly_increases,
    lemma_pow2_unfold, pow2,
};
use vstd::prelude::*;

verus! {

/// The sign bit of a single-precision bit pattern.
pub const SIGN_BIT: u32 = 0x8000_0000;

/// The magnitude of infinity; every larger magnitude is not-a-number.
pub const INFINITY_MAGNITUDE: u32 = 0x7f80_0000;

/// The bits of `0.2`, the least similarity that makes an example a candidate
/// unless the caller names another.
pub const DEFAULT_THRESHOLD: u32 = 0x3e4c_cccd;

/// The first magnitude with a non-zero exponent: the fraction has 23 bits.
pub const FRACTION_RANGE: u32 = 0x80_0000;

/// The size of the number with the given magnitude, in units of 2^-149. With
/// a zero exponent the number is subnormal and its size is the fraction.
/// Otherwise a leading one stands before the fraction, and each step of the
/// exponent doubles the size.
pub open spec fn size(magnitude: int) -> int {
    let exponent = magnitude / (FRACTION_RANGE as int);
    let fraction = magnitude % (FRACTION_RANGE as int);
    if exponent == 0 {
        fraction
    } else {
        (FRACTION_RANGE + fraction) * pow2((exponent - 1) as nat)
    }
}

/// A similarity score, as the bits of a single-precision number.
#[derive(Clone, Copy, Debug, PartialEq, Eq)]
pub struct Similarity {
    pub bits: u32,
}

impl Similarity {
    /// The bits without the sign.
    pub open spec fn magnitude(self) -> int {
        if self.bits >= SIGN_BIT {
            self.bits - SIGN_BIT
        } else {
            self.bits as int
        }
    }

    /// Whether the bits stand for not-a-number.
    pub open spec fn nan(self) -> bool {
        self.magnitude() > INFINITY_MAGNITUDE
    }

    /// The place of the score on the number line: scores that are numbers
    /// compare as their ranks do. Both zeros have rank 0.
    pub open spec fn rank(self) -> int {
        if self.bits >= SIGN_BIT {
            -self.magnitude()
        } else {
            self.magnitude()
        }
    }

    /// Whether the score is a finite number.
    pub open spec fn finite(self) -> bool {
        self.magnitude() < INFINITY_MAGNITUDE
    }

    /// The finite number that the bits stand for, in units of 2^-149.
    pub open spec fn value(self) -> int
        recommends
            self.finite(),
    {
        if self.bits >= SIGN_BIT {
            -size(self.magnitude())
        } else {
            size(self.magnitude())
        }
    }

    /// `self >= floor` as numbers; false as soon as either is not-a-number.
    pub open spec fn reaches(self, floor: Similarity) -> bool {
        !self.nan() && !floor.nan() && self.rank() >= floor.rank()
    }

    /// The default threshold as a score.
    pub open spec fn threshold() -> Similarity {
        Similarity { bits: DEFAULT_THRESHOLD }
    }

    /// The default threshold as a score.
    pub fn default_threshold() -> (s: Similarity)
        ensures
            s == Similarity::threshold(),
    {
        Similarity { bits: DEFAULT_THRESHOLD }
    }

    /// The score with the given bits.
    pub fn from_bits(bits: u32) -> (s: Similarity)
        ensures
            s.bits == bits,
    {
        Similarity { bits }
    }

    /// The bits of the score.
    pub fn to_bits(&self) -> (bits: u32)
        ensures
            bits == self.bits,
    {
        self.bits
    }

    /// Whether the score is not-a-number.
    pub fn is_nan(&self) -> (b: bool)
        ensures
            b == self.nan(),
    {
        if self.bits >= SIGN_BIT {
            self.bits - SIGN_BIT > INFINITY_MAGNITUDE
        } else {
            self.bits > INFINITY_MAGNITUDE
        }
    }

    /// The rank as a machine integer.
    pub fn order_key(&self) -> (key: i64)
        ensures
            key == self.rank(),
    {
        if self.bits >= SIGN_BIT {
            let magnitude: u32 = self.bits - SIGN_BIT;
            -(magnitude as i64)
        } else {
            self.bits as i64
        }
    }

    /// Whether the score is a number no smaller than `floor`.
    pub fn at_least(&self, floor: &Similarity) -> (b: bool)
        ensures
            b == self.reaches(*floor),
    {
        !self.is_nan() && !floor.is_nan() && self.order_key() >= floor.order_key()
    }
}

/// Among numbers, the order of scores is total: of two scores one reaches the
/// other, and two scores that reach each other have the same rank.
pub proof fn order_is_total(a: Similarity, b: Similarity)
    requires
        !a.nan(),
        !b.nan(),
    ensures
        a.reaches(b) || b.reaches(a),
        a.reaches(b) && b.reaches(a) <==> a.rank() == b.rank(),
{
}

/// Reaching a floor carries over: what reaches a score that reaches the floor
/// reaches the floor.
pub proof fn order_is_transitive(a: Similarity, b: Similarity, c: Similarity)
    requires
        a.reaches(b),
        b.reaches(c),
    ensures
        a.reaches(c),
{
}

/// Not-a-number never reaches a floor and is never reached.
pub proof fn nan_is_unordered(a: Similarity, b: Similarity)
    requires
        a.nan() || b.nan(),
    ensures
        !a.reaches(b),
        !b.reaches(a),
{
}

/// Among finite magnitudes, the larger magnitude has the larger size.
proof fn lemma_size_grows(low: int, high: int)
    requires
        0 <= low < high < INFINITY_MAGNITUDE,
    ensures
        0 <= size(low) < size(high),
{
    let range = FRACTION_RANGE as int;
    let e1 = low / range;
    let f1 = low % range;
    let e2 = high / range;
    let f2 = high % range;
    assert(0 <= f1 < range && 0 <= f2 < range);
    assert(0 <= e1 <= e2 < 255);
    if e1 > 0 {
        lemma_pow2_pos((e1 - 1) as nat);
        assert(0 <= (range + f1) * pow2((e1 - 1) as nat)) by (nonlinear_arith)
            requires
                0 <= f1,
                range > 0,
                pow2((e1 - 1) as nat) > 0,
        ;
    }
    if e1 == e2 {
        assert(f1 < f2);
        if e1 > 0 {
            let p = pow2((e1 - 1) as nat);
            assert((range + f1) * p < (range + f2) * p) by (nonlinear_arith)
                requires
                    f1 < f2,
                    p > 0,
            ;
        }
    } else {
        let upper = pow2((e2 - 1) as nat);
        lemma_pow2_pos((e2 - 1) as nat);
        assert(range * upper <= (range + f2) * upper) by (nonlinear_arith)
            requires
                0 <= f2,
                upper > 0,
        ;
        if e1 == 0 {
            assert(range <= range * upper) by (nonlinear_arith)
                requires
                    range > 0,
                    upper >= 1,
            ;
        } else {
            let lower = pow2((e1 - 1) as nat);
            lemma_pow2_unfold(e1 as nat);
            if e1 < e2 - 1 {
                lemma_pow2_strictly_increases(e1 as nat, (e2 - 1) as nat);
            }
            assert(pow2(e1 as nat) <= upper);
            assert((range + f1) * lower < range * upper) by (nonlinear_arith)
                requires
                    0 <= f1 < range,
                    lower > 0,
                    2 * lower <= upper,
            ;
        }
    }
}

/// The order of scores is the order of the numbers they stand for: of two
/// finite scores, one has the rank of the other or a lower one exactly when
/// its value is the other's or a lower one.
pub proof fn rank_orders_as_value(a: Similarity, b: Similarity)
    requires
        a.finite(),
        b.finite(),
    ensures
        a.rank() <= b.rank() <==> a.value() <= b.value(),
        a.rank() == b.rank() <==> a.value() == b.value(),
{
    let m = a.magnitude();
    let n = b.magnitude();
    assert(size(0) == 0);
    if m < n {
        lemma_size_grows(m, n);
    } else if n < m {
        lemma_size_grows(n, m);
    }
    if 0 < m {
        lemma_size_grows(0, m);
    }
    if 0 < n {
        lemma_size_grows(0, n);
    }
}

/// The default threshold stands for 13421773 / 2^26, the single-precision
/// number next to a fifth: five times as much is one and 2^-26.
pub proof fn threshold_is_a_fifth()
    ensures
        Similarity::threshold().finite(),
        Similarity::threshold().value() == 13421773 * pow2(123),
        5 * 13421773 == pow2(26) + 1,
{
    lemma2_to64();
    assert(Similarity::threshold().magnitude() == 0x3e4c_cccd);
    assert(0x3e4c_cccdint / 0x80_0000 == 124);
    assert(0x3e4c_cccdint % 0x80_0000 == 0x4c_cccd);
    assert(0x80_0000 + 0x4c_cccd == 13421773);
}

/// The similarity of a vector with itself, the bits of `1.0`, stands for
/// the number one, which is 2^149 units, and reaches the default threshold.
pub proof fn full_similarity_reaches_threshold()
    ensures
        (Similarity { bits: 0x3f80_0000 }).value() == pow2(149),
        (Similarity { bits: 0x3f80_0000 }).reaches(Similarity::threshold()),
{
    let one = Similarity { bits: 0x3f80_0000 };
    assert(one.magnitude() == 0x3f80_0000);
    assert(0x3f80_0000int / 0x80_0000 == 127);
    assert(0x3f80_0000int % 0x80_0000 == 0);
    lemma2_to64();
    lemma_pow2_adds(23, 126);
}

} // verus!
