//! The three condition flags.

use vstd::prelude::*;
use crate::utils::word_value;

verus! {

/// The sign of the last value that an instruction put into a register.
///
/// The condition register holds the mask of exactly one flag at a time.
#[derive(Clone, Copy, Debug, PartialEq, Eq, Structural)]
pub enum Flag {
    /// The value was positive (P).
    POS,
    /// The value was zero (Z).
    ZRO,
    /// The value was negative (N): bit 15 was set.
    NEG,
}

impl Flag {
    /// The flag's bit in the condition register and in the condition field
    /// of a branch: 1 for `POS`, 2 for `ZRO`, 4 for `NEG`.
    pub open spec fn mask(self) -> u16 {
        match self {
            Flag::POS => 1,
            Flag::ZRO => 2,
            Flag::NEG => 4,
        }
    }

    /// Whether `value` is the mask of exactly one flag.
    pub open spec fn is_mask(value: u16) -> bool {
        value == Flag::POS.mask() || value == Flag::ZRO.mask() || value == Flag::NEG.mask()
    }

    /// The flag that describes `value` read as a two's-complement number.
    pub open spec fn of(value: u16) -> Flag {
        if value == 0 {
            Flag::ZRO
        } else if value >= 0x8000 {
            Flag::NEG
        } else {
            Flag::POS
        }
    }

    /// Returns the flag's bit mask.
    pub fn bits(self) -> (r: u16)
        ensures
            r == self.mask(),
    {
        match self {
            Flag::POS => 1,
            Flag::ZRO => 2,
            Flag::NEG => 4,
        }
    }

    /// Classifies `value` as zero, negative or positive.
    pub fn classify(value: u16) -> (flag: Flag)
        ensures
            flag == Flag::of(value),
    {
        assert((value >> 15 == 1) == (value >= 0x8000)) by (bit_vector);
        if value == 0 {
            Flag::ZRO
        } else if value >> 15 == 1 {
            // a 1 in the left-most bit indicates negative
            Flag::NEG
        } else {
            Flag::POS
        }
    }
}

/// The flag of a word is the sign of the number that the word stands for in
/// two's complement.
pub proof fn lemma_flag_is_sign(value: u16)
    ensures
        Flag::of(value) == Flag::NEG <==> word_value(value) < 0,
        Flag::of(value) == Flag::ZRO <==> word_value(value) == 0,
        Flag::of(value) == Flag::POS <==> word_value(value) > 0,
        Flag::is_mask(Flag::of(value).mask()),
{
}

} // verus!
