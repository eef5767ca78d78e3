//! A duration in seconds, carried as the bit pattern of a binary64 number.
//!
//! The container stores the time per frame as a big-endian IEEE-754 double.
//! The library never does arithmetic on such a value: it moves the sixty-four
//! bits around and classifies them by sign, which takes integers only.
use vstd::prelude::*;

verus! {

/// The bit pattern of `+0.0`, and the lowest pattern of all.
pub const POSITIVE_ZERO_BITS: u64 = 0;

/// The bit pattern of `-0.0`: the sign bit alone.
pub const NEGATIVE_ZERO_BITS: u64 = 0x8000_0000_0000_0000;

/// The bit pattern of negative infinity, the highest pattern that is a
/// negative number and not a NaN.
pub const NEGATIVE_INFINITY_BITS: u64 = 0xFFF0_0000_0000_0000;

/// The bit pattern of positive infinity.
pub const POSITIVE_INFINITY_BITS: u64 = 0x7FF0_0000_0000_0000;

/// The bit pattern of `-0.1`, the time left that `skip_to_next_frame` sets.
pub const SKIP_BITS: u64 = 0xBFB9_9999_9999_999A;

/// A number of seconds as an IEEE-754 binary64 value, held by its bits.
///
/// Equality is equality of bit patterns, so the two zeros differ and a NaN
/// equals itself.
#[derive(Clone, Copy, Debug, PartialEq, Eq, Hash, Structural)]
pub struct Seconds {
    /// Sign, exponent and mantissa, as `f64::to_bits` gives them.
    pub bits: u64,
}

/// The byte of `bits` that stands at place `i` of its big-endian form;
/// place 0 is the most significant.
pub open spec fn be_byte(bits: u64, i: int) -> u8 {
    if i == 0 {
        (bits / 0x0100_0000_0000_0000) as u8
    } else if i == 1 {
        ((bits / 0x0001_0000_0000_0000) % 256) as u8
    } else if i == 2 {
        ((bits / 0x0000_0100_0000_0000) % 256) as u8
    } else if i == 3 {
        ((bits / 0x0000_0001_0000_0000) % 256) as u8
    } else if i == 4 {
        ((bits / 0x0000_0000_0100_0000) % 256) as u8
    } else if i == 5 {
        ((bits / 0x0000_0000_0001_0000) % 256) as u8
    } else if i == 6 {
        ((bits / 0x0000_0000_0000_0100) % 256) as u8
    } else {
        (bits % 256) as u8
    }
}

/// The eight bytes of `bits`, most significant first.
pub open spec fn be_bytes(bits: u64) -> Seq<u8> {
    Seq::new(8, |i: int| be_byte(bits, i))
}

/// The number that eight big-endian bytes spell. Defined on sequences of
/// length eight.
pub open spec fn from_be_bytes(b: Seq<u8>) -> int {
    b[0] * 0x0100_0000_0000_0000 + b[1] * 0x0001_0000_0000_0000 + b[2] * 0x0000_0100_0000_0000
        + b[3] * 0x0000_0001_0000_0000 + b[4] * 0x0000_0000_0100_0000 + b[5]
        * 0x0000_0000_0001_0000 + b[6] * 0x0000_0000_0000_0100 + b[7]
}

/// Reading the big-endian form of a number gives the number back.
pub proof fn lemma_be_round_trip(bits: u64)
    ensures
        from_be_bytes(be_bytes(bits)) == bits,
{
    let v = bits as int;
    let q1 = v / 0x100;
    let q2 = v / 0x1_0000;
    let q3 = v / 0x100_0000;
    let q4 = v / 0x1_0000_0000;
    let q5 = v / 0x100_0000_0000;
    let q6 = v / 0x1_0000_0000_0000;
    let q7 = v / 0x100_0000_0000_0000;
    assert(q2 == q1 / 0x100);
    assert(q3 == q2 / 0x100);
    assert(q4 == q3 / 0x100);
    assert(q5 == q4 / 0x100);
    assert(q6 == q5 / 0x100);
    assert(q7 == q6 / 0x100);
    assert(v == q1 * 0x100 + v % 0x100);
    assert(q1 == q2 * 0x100 + q1 % 0x100);
    assert(q2 == q3 * 0x100 + q2 % 0x100);
    assert(q3 == q4 * 0x100 + q3 % 0x100);
    assert(q4 == q5 * 0x100 + q4 % 0x100);
    assert(q5 == q6 * 0x100 + q5 % 0x100);
    assert(q6 == q7 * 0x100 + q6 % 0x100);
    assert(q7 < 0x100);
    let b = be_bytes(bits);
    assert(b[0] == q7);
    assert(b[1] == q6 % 0x100);
    assert(b[2] == q5 % 0x100);
    assert(b[3] == q4 % 0x100);
    assert(b[4] == q3 % 0x100);
    assert(b[5] == q2 % 0x100);
    assert(b[6] == q1 % 0x100);
    assert(b[7] == v % 0x100);
}

impl Seconds {
    /// Whether the value is a NaN: exponent all ones, mantissa not zero.
    pub open spec fn is_nan(self) -> bool {
        (POSITIVE_INFINITY_BITS < self.bits && self.bits < NEGATIVE_ZERO_BITS)
            || NEGATIVE_INFINITY_BITS < self.bits
    }

    /// Whether the value compares below zero: a negative number other than
    /// `-0.0`, down to negative infinity, and no NaN.
    pub open spec fn below_zero(self) -> bool {
        NEGATIVE_ZERO_BITS < self.bits && self.bits <= NEGATIVE_INFINITY_BITS
    }

    /// Whether the value compares at or below zero: either zero or a value
    /// below zero. A NaN compares with nothing, so it is not among them.
    pub open spec fn at_most_zero(self) -> bool {
        self.bits == POSITIVE_ZERO_BITS || (NEGATIVE_ZERO_BITS <= self.bits && self.bits
            <= NEGATIVE_INFINITY_BITS)
    }

    /// The value with the given bit pattern.
    pub fn from_bits(bits: u64) -> (s: Seconds)
        ensures
            s.bits == bits,
    {
        Seconds { bits }
    }

    /// The bit pattern of the value.
    pub fn to_bits(&self) -> (bits: u64)
        ensures
            bits == self.bits,
    {
        self.bits
    }

    /// Tests `is_nan`.
    pub fn nan(&self) -> (r: bool)
        ensures
            r == self.is_nan(),
    {
        (POSITIVE_INFINITY_BITS < self.bits && self.bits < NEGATIVE_ZERO_BITS)
            || NEGATIVE_INFINITY_BITS < self.bits
    }

    /// Tests `below_zero`.
    pub fn negative(&self) -> (r: bool)
        ensures
            r == self.below_zero(),
    {
        NEGATIVE_ZERO_BITS < self.bits && self.bits <= NEGATIVE_INFINITY_BITS
    }

    /// Tests `at_most_zero`.
    pub fn zero_or_negative(&self) -> (r: bool)
        ensures
            r == self.at_most_zero(),
    {
        self.bits == POSITIVE_ZERO_BITS || (NEGATIVE_ZERO_BITS <= self.bits && self.bits
            <= NEGATIVE_INFINITY_BITS)
    }

    /// Appends the eight bytes of the value, most significant first.
    pub fn write_be(&self, output: &mut Vec<u8>)
        ensures
            final(output)@ == old(output)@ + be_bytes(self.bits),
    {
        let v: u64 = self.bits;
        output.push((v / 0x0100_0000_0000_0000) as u8);
        output.push(((v / 0x0001_0000_0000_0000) % 256) as u8);
        output.push(((v / 0x0000_0100_0000_0000) % 256) as u8);
        output.push(((v / 0x0000_0001_0000_0000) % 256) as u8);
        output.push(((v / 0x0000_0000_0100_0000) % 256) as u8);
        output.push(((v / 0x0000_0000_0001_0000) % 256) as u8);
        output.push(((v / 0x0000_0000_0000_0100) % 256) as u8);
        output.push((v % 256) as u8);
        assert(output@ =~= old(output)@ + be_bytes(self.bits));
    }

    /// Reads the value whose eight big-endian bytes start at `at`.
    pub fn read_be(bytes: &[u8], at: usize) -> (s: Seconds)
        requires
            at + 8 <= bytes@.len(),
        ensures
            s.bits == from_be_bytes(bytes@.subrange(at as int, at + 8)),
    {
        let b0: u64 = bytes[at] as u64;
        let b1: u64 = bytes[at + 1] as u64;
        let b2: u64 = bytes[at + 2] as u64;
        let b3: u64 = bytes[at + 3] as u64;
        let b4: u64 = bytes[at + 4] as u64;
        let b5: u64 = bytes[at + 5] as u64;
        let b6: u64 = bytes[at + 6] as u64;
        let b7: u64 = bytes[at + 7] as u64;
        Seconds {
            bits: b0 * 0x0100_0000_0000_0000 + b1 * 0x0001_0000_0000_0000 + b2
                * 0x0000_0100_0000_0000 + b3 * 0x0000_0001_0000_0000 + b4 * 0x0000_0000_0100_0000
                + b5 * 0x0000_0000_0001_0000 + b6 * 0x0000_0000_0000_0100 + b7,
        }
    }
}

} // verus!
