//! Scores as they are ordered. A score is a 64-bit floating point number that the
//! library never computes with: it only compares it. It is held as the integer
//! key whose order is the IEEE 754 total order of the number, so that every
//! comparison is one of integers and the number can be given back bit for bit.

use vstd::prelude::*;

verus! {

/// The key of positive infinity.
pub const INFINITY_KEY: i64 = 0x7ff0_0000_0000_0000;

/// The key of `1.0`.
pub const ONE_KEY: i64 = 0x3ff0_0000_0000_0000;

#[derive(Debug, Clone, Copy, PartialEq, Eq, Structural)]
pub struct Score {
    pub key: i64,
}

/// The key of the number with these bits: the sign bit selects whether the other
/// sixty-three count up or down.
pub open spec fn key_of_bits(bits: u64) -> i64 {
    if bits < 0x8000_0000_0000_0000 {
        bits as i64
    } else {
        (0x7fff_ffff_ffff_ffff - bits) as i64
    }
}

pub open spec fn bits_of_key(key: i64) -> u64 {
    if key >= 0 {
        key as u64
    } else {
        (0x7fff_ffff_ffff_ffff - key) as u64
    }
}

impl Score {
    /// Neither infinite nor not-a-number.
    pub open spec fn finite(self) -> bool {
        -INFINITY_KEY <= self.key < INFINITY_KEY
    }

    /// Anything but not-a-number.
    pub open spec fn is_number(self) -> bool {
        -INFINITY_KEY - 1 <= self.key <= INFINITY_KEY
    }

    /// The place of a number in numeric order, where the two zeros coincide.
    pub open spec fn value_rank(self) -> int {
        if self.key < 0 {
            self.key + 1
        } else {
            self.key as int
        }
    }

    /// Numeric `self >= threshold`, false where `self` is not-a-number.
    pub open spec fn at_least(self, threshold: Score) -> bool {
        self.is_number() && threshold.is_number() && self.value_rank() >= threshold.value_rank()
    }

    pub fn from_bits(bits: u64) -> (r: Score)
        ensures
            r.key == key_of_bits(bits),
    {
        if bits < 0x8000_0000_0000_0000 {
            Score { key: bits as i64 }
        } else {
            Score { key: -((bits - 0x8000_0000_0000_0000) as i64) - 1 }
        }
    }

    pub fn to_bits(self) -> (r: u64)
        ensures
            r == bits_of_key(self.key),
    {
        if self.key >= 0 {
            self.key as u64
        } else {
            0x8000_0000_0000_0000 + (-(self.key + 1)) as u64
        }
    }

    pub fn is_finite(self) -> (r: bool)
        ensures
            r == self.finite(),
    {
        -INFINITY_KEY <= self.key && self.key < INFINITY_KEY
    }

    pub fn reaches(self, threshold: Score) -> (r: bool)
        ensures
            r == self.at_least(threshold),
    {
        let low: i64 = -INFINITY_KEY - 1;
        if !(low <= self.key && self.key <= INFINITY_KEY && low <= threshold.key && threshold.key
            <= INFINITY_KEY) {
            return false;
        }
        let left: i64 = if self.key < 0 {
            self.key + 1
        } else {
            self.key
        };
        let right: i64 = if threshold.key < 0 {
            threshold.key + 1
        } else {
            threshold.key
        };
        left >= right
    }
}

/// Taking a number apart into its key and putting it together again loses nothing,
/// in either direction.
pub proof fn lemma_score_bits_roundtrip(bits: u64, key: i64)
    ensures
        bits_of_key(key_of_bits(bits)) == bits,
        key_of_bits(bits_of_key(key)) == key,
{
}

}
