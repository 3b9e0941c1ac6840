//! Port I/O as values: what to write to which port. The writes themselves
//! are performed by the caller.

use vstd::prelude::*;

verus! {

/// One byte to write to an I/O port.
#[derive(Debug, Clone, Copy, PartialEq, Eq, Structural)]
pub struct PortWrite {
    pub port: u16,
    pub value: u8,
}

/// The bytes of a 16-bit value as quotient and remainder.
pub proof fn lemma_u16_bytes(x: u16)
    by (bit_vector)
    ensures
        x & 0xffu16 == x % 256,
        (x & 0xff00u16) >> 8u16 == x / 256,
        (x >> 8u16) & 0xffu16 == x / 256,
{
}

/// The bytes of a 32-bit value as quotients and remainders.
pub proof fn lemma_u32_bytes(x: u32)
    by (bit_vector)
    ensures
        x & 0xffu32 == x % 256,
        (x & 0xff00u32) >> 8u32 == (x / 256) % 256,
        (x & 0xff0000u32) >> 16u32 == (x / 65536) % 256,
        (x & 0xff000000u32) >> 24u32 == x / 16777216,
        (x & 0xf000000u32) >> 24u32 == (x / 16777216) % 16,
{
}

/// The write of `value` to `port`.
pub fn port_write(port: u16, value: u8) -> (res: PortWrite)
    ensures
        res == (PortWrite { port, value }),
{
    PortWrite { port, value }
}

} // verus!
