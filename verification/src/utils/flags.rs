//! A set of eight one-bit flags held in a byte.

use vstd::prelude::*;

verus! {

/// The mask of bit `bit`.
pub open spec fn bit_mask(bit: u8) -> u8 {
    (1u8 << bit) as u8
}

/// A flag word.
#[derive(Default)]
pub struct Flags<T>(pub T);

/// Operations on the bits of a flag word; `bit` must be below 8.
pub trait FlagOp<T> {
    /// The bits of the word.
    spec fn flag_bits(&self) -> u8;

    /// Flips bit `bit`.
    fn toggle(&mut self, bit: u8)
        requires
            bit < 8,
        ensures
            final(self).flag_bits() == old(self).flag_bits() ^ bit_mask(bit),
    ;

    /// Sets bit `bit`.
    fn enable(&mut self, bit: u8)
        requires
            bit < 8,
        ensures
            final(self).flag_bits() == old(self).flag_bits() | bit_mask(bit),
    ;

    /// Clears bit `bit`.
    fn disable(&mut self, bit: u8)
        requires
            bit < 8,
        ensures
            final(self).flag_bits() == old(self).flag_bits() & !bit_mask(bit),
    ;

    /// Whether bit `bit` is set.
    fn is_enable(&self, bit: u8) -> (res: bool)
        requires
            bit < 8,
        ensures
            res == (self.flag_bits() & bit_mask(bit) == bit_mask(bit)),
    ;

    /// Whether bit `bit` is clear.
    fn is_disable(&self, bit: u8) -> (res: bool)
        requires
            bit < 8,
        ensures
            res == (self.flag_bits() & bit_mask(bit) != bit_mask(bit)),
    ;
}

impl FlagOp<u8> for Flags<u8> {
    open spec fn flag_bits(&self) -> u8 {
        self.0
    }

    fn toggle(&mut self, bit: u8) {
        self.0 = self.0 ^ (1u8 << bit);
    }

    fn enable(&mut self, bit: u8) {
        self.0 = self.0 | (1u8 << bit);
    }

    fn disable(&mut self, bit: u8) {
        self.0 = self.0 & !(1u8 << bit);
    }

    fn is_enable(&self, bit: u8) -> (res: bool) {
        (self.0 & (1u8 << bit)) == (1u8 << bit)
    }

    fn is_disable(&self, bit: u8) -> (res: bool) {
        !self.is_enable(bit)
    }
}

impl Flags<u8> {
    /// A flag word holding `base`.
    pub fn new(base: u8) -> (res: Self)
        ensures
            res.0 == base,
    {
        Flags(base)
    }
}

/// Toggling a bit twice gives back the word.
pub proof fn lemma_toggle_twice(bits: u8, bit: u8)
    by (bit_vector)
    requires
        bit < 8,
    ensures
        (bits ^ bit_mask(bit)) ^ bit_mask(bit) == bits,
{
}

/// Toggling a bit flips whether it is set and leaves every other bit.
pub proof fn lemma_toggle_flips(bits: u8, bit: u8, other: u8)
    by (bit_vector)
    requires
        bit < 8,
        other < 8,
    ensures
        ((bits ^ bit_mask(bit)) & bit_mask(bit) == bit_mask(bit)) == (bits & bit_mask(bit) != bit_mask(bit)),
        other != bit ==> ((bits ^ bit_mask(bit)) & bit_mask(other) == (bits & bit_mask(other))),
{
}

/// After enabling a bit it is set; after disabling it, it is clear; every
/// other bit stays.
pub proof fn lemma_enable_disable(bits: u8, bit: u8, other: u8)
    by (bit_vector)
    requires
        bit < 8,
        other < 8,
    ensures
        (bits | bit_mask(bit)) & bit_mask(bit) == bit_mask(bit),
        (bits & !bit_mask(bit)) & bit_mask(bit) != bit_mask(bit),
        other != bit ==> ((bits | bit_mask(bit)) & bit_mask(other) == (bits & bit_mask(other))),
        other != bit ==> ((bits & !bit_mask(bit)) & bit_mask(other) == (bits & bit_mask(other))),
{
}

} // verus!
