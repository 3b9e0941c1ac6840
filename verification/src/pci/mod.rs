//! PCI devices: the configuration address of a register, and decoding
//! the configuration header from its registers.

use vstd::prelude::*;

pub mod header;
pub mod ide;

use crate::pci::header::{Headers, PciCommonHdr, PciHdr, StandardHdr};

verus! {

/// The port that selects a configuration register.
pub const PCI_CONFIG_ADDRESS: u16 = 0xcf8;

/// The port that gives the selected register.
pub const PCI_CONFIG_DATA: u16 = 0xcfc;

/// The word that selects register `offset` (its bits 7-2) of function
/// `func` of the device at `bus`:`slot`, enable bit set.
pub open spec fn config_address_spec(bus: u8, slot: u8, func: u8, offset: u8) -> u32 {
    ((bus as u32) << 16u32) | ((slot as u32) << 11u32) | ((func as u32) << 8u32) | ((offset & 0xfc) as u32)
        | 0x8000_0000u32
}

pub fn config_address(bus: u8, slot: u8, func: u8, offset: u8) -> (res: u32)
    ensures
        res == config_address_spec(bus, slot, func, offset),
{
    ((bus as u32) << 16) | ((slot as u32) << 11) | ((func as u32) << 8) | ((offset & 0xfc) as u32) | 0x8000_0000
}

/// The register, word and byte that an offset selects.
proof fn lemma_offset_bits(offset: u8)
    by (bit_vector)
    ensures
        offset >> 2u8 == offset / 4,
        offset & 1u8 <= 1,
        offset & 3u8 <= 3,
{
}

/// The word of `reg` that bit 0 of `offset` selects.
pub open spec fn reg_word(reg: u32, offset: u8) -> u16 {
    ((reg >> (((offset & 1) * 16) as u32)) & 0xffff) as u16
}

/// The byte of `reg` that bits 1-0 of `offset` select.
pub open spec fn reg_byte(reg: u32, offset: u8) -> u8 {
    ((reg >> (((offset & 3) * 8) as u32)) & 0xff) as u8
}

/// The common header held by the first four registers.
pub open spec fn common_of(space: Seq<u32>) -> PciCommonHdr {
    PciCommonHdr {
        vendor_id: reg_word(space[0], 0),
        device_id: reg_word(space[0], 1),
        command: reg_word(space[1], 4),
        status: reg_word(space[1], 5),
        revision_id: reg_byte(space[2], 8),
        prog_if: reg_byte(space[2], 9),
        subclass: reg_byte(space[2], 10),
        class_code: reg_byte(space[2], 11),
        cache_line_size: reg_byte(space[3], 12),
        latency_timer: reg_byte(space[3], 13),
        header_type: reg_byte(space[3], 14),
        bist: reg_byte(space[3], 15),
    }
}

/// The standard header held by registers 4 to 15 (the reserved bytes
/// are not read).
pub open spec fn standard_of(space: Seq<u32>) -> StandardHdr {
    StandardHdr {
        base_addr: [space[4], space[5], space[6], space[7], space[8], space[9]],
        cis_ptr: space[10],
        subs_vid: reg_word(space[11], 0x2c),
        subs_id: reg_word(space[11], 0x2d),
        rom_bar: space[12],
        cap_ptr: reg_byte(space[13], 0x34),
        reserved: [0u8, 0u8, 0u8, 0u8, 0u8, 0u8, 0u8],
        int_line: reg_byte(space[15], 0x3c),
        int_pin: reg_byte(space[15], 0x3d),
        min_grant: reg_byte(space[15], 0x3e),
        max_latency: reg_byte(space[15], 0x3f),
    }
}

/// The standard header gives, as base address `i` (below 6), the register
/// at configuration offset `0x10 + 4 * i`; the card bus pointer and the
/// expansion ROM address are the registers at offsets 0x28 and 0x30.
pub proof fn lemma_standard_bars(space: Seq<u32>)
    requires
        space.len() >= 16,
    ensures
        forall|i: int| 0 <= i < 6 ==> #[trigger] standard_of(space).base_addr[i] == space[(0x10 + 4 * i) / 4],
        standard_of(space).cis_ptr == space[0x28int / 4],
        standard_of(space).rom_bar == space[0x30int / 4],
{
    let h = standard_of(space);
    assert forall|i: int| 0 <= i < 6 implies #[trigger] h.base_addr[i] == space[(0x10 + 4 * i) / 4] by {
        assert(h.base_addr@ =~= seq![space[4], space[5], space[6], space[7], space[8], space[9]]);
        assert((0x10 + 4 * i) / 4 == 4 + i);
        assert(h.base_addr[i] == h.base_addr@[i]);
    }
}

/// The halves and the bytes of register `r` as shifts and masks.
proof fn lemma_reg_shifts(r: u32)
    by (bit_vector)
    ensures
        (r >> 0u32) & 0xffffu32 == r % 0x1_0000,
        (r >> 16u32) & 0xffffu32 == r / 0x1_0000,
        (r >> 0u32) & 0xffu32 == r % 0x100,
        (r >> 8u32) & 0xffu32 == (r / 0x100) % 0x100,
        (r >> 16u32) & 0xffu32 == (r / 0x1_0000) % 0x100,
        (r >> 24u32) & 0xffu32 == r / 0x100_0000,
{
}

/// The half of register `r` that offset `o` selects: the low one for an
/// even offset, the high one for an odd one.
proof fn lemma_reg_word(r: u32, o: u8)
    ensures
        o & 1 == 0 ==> reg_word(r, o) == r % 0x1_0000,
        o & 1 == 1 ==> reg_word(r, o) == r / 0x1_0000,
{
    lemma_reg_shifts(r);
}

/// The byte of register `r` that offset `o` selects, by its low two bits.
proof fn lemma_reg_byte(r: u32, o: u8)
    ensures
        o & 3 == 0 ==> reg_byte(r, o) == r % 0x100,
        o & 3 == 1 ==> reg_byte(r, o) == (r / 0x100) % 0x100,
        o & 3 == 2 ==> reg_byte(r, o) == (r / 0x1_0000) % 0x100,
        o & 3 == 3 ==> reg_byte(r, o) == r / 0x100_0000,
{
    lemma_reg_shifts(r);
}

/// The common header is read from the first four registers, low bytes
/// first: register 0 holds the vendor (low half) and the device (high
/// half), register 1 the command and the status, register 2 the revision,
/// the programming interface, the subclass and the class, register 3 the
/// cache line size, the latency timer, the header type and the self-test
/// byte.
pub proof fn lemma_common_fields(space: Seq<u32>)
    requires
        space.len() >= 4,
    ensures
        ({
            let c = common_of(space);
            &&& c.vendor_id == space[0] % 0x1_0000 && c.device_id == space[0] / 0x1_0000
            &&& c.command == space[1] % 0x1_0000 && c.status == space[1] / 0x1_0000
            &&& c.revision_id == space[2] % 0x100 && c.prog_if == (space[2] / 0x100) % 0x100
            &&& c.subclass == (space[2] / 0x1_0000) % 0x100 && c.class_code == space[2] / 0x100_0000
            &&& c.cache_line_size == space[3] % 0x100 && c.latency_timer == (space[3] / 0x100) % 0x100
            &&& c.header_type == (space[3] / 0x1_0000) % 0x100 && c.bist == space[3] / 0x100_0000
        }),
{
    lemma_offset_parts();
    lemma_reg_word(space[0], 0);
    lemma_reg_word(space[0], 1);
    lemma_reg_word(space[1], 4);
    lemma_reg_word(space[1], 5);
    lemma_reg_byte(space[2], 8);
    lemma_reg_byte(space[2], 9);
    lemma_reg_byte(space[2], 10);
    lemma_reg_byte(space[2], 11);
    lemma_reg_byte(space[3], 12);
    lemma_reg_byte(space[3], 13);
    lemma_reg_byte(space[3], 14);
    lemma_reg_byte(space[3], 15);
}

/// The offsets the headers are read at select these halves and bytes.
proof fn lemma_offset_parts()
    by (bit_vector)
    ensures
        (0u8 & 1u8) == 0u8 && (1u8 & 1u8) == 1u8 && (4u8 & 1u8) == 0u8 && (5u8 & 1u8) == 1u8 && (0x2cu8 & 1u8)
            == 0u8 && (0x2du8 & 1u8) == 1u8,
        (8u8 & 3u8) == 0u8 && (9u8 & 3u8) == 1u8 && (10u8 & 3u8) == 2u8 && (11u8 & 3u8) == 3u8,
        (12u8 & 3u8) == 0u8 && (13u8 & 3u8) == 1u8 && (14u8 & 3u8) == 2u8 && (15u8 & 3u8) == 3u8,
        (0x34u8 & 3u8) == 0u8 && (0x3cu8 & 3u8) == 0u8 && (0x3du8 & 3u8) == 1u8 && (0x3eu8 & 3u8) == 2u8
            && (0x3fu8 & 3u8) == 3u8,
{
}

/// The standard header's two subsystem halves and its bytes: register 11
/// holds the subsystem vendor (low half) and id (high half), register 13
/// the capabilities pointer in its low byte, register 15 the interrupt
/// line, the interrupt pin, the minimum grant and the maximum latency.
pub proof fn lemma_standard_fields(space: Seq<u32>)
    requires
        space.len() >= 16,
    ensures
        ({
            let h = standard_of(space);
            &&& h.subs_vid == space[11] % 0x1_0000 && h.subs_id == space[11] / 0x1_0000
            &&& h.cap_ptr == space[13] % 0x100
            &&& h.int_line == space[15] % 0x100 && h.int_pin == (space[15] / 0x100) % 0x100
            &&& h.min_grant == (space[15] / 0x1_0000) % 0x100 && h.max_latency == space[15] / 0x100_0000
        }),
{
    lemma_offset_parts();
    lemma_reg_word(space[11], 0x2c);
    lemma_reg_word(space[11], 0x2d);
    lemma_reg_byte(space[13], 0x34);
    lemma_reg_byte(space[15], 0x3c);
    lemma_reg_byte(space[15], 0x3d);
    lemma_reg_byte(space[15], 0x3e);
    lemma_reg_byte(space[15], 0x3f);
}

/// A device at `bus`:`slot`, with the 64 configuration registers of each
/// of its eight functions as read through the configuration ports
/// (function `f`'s register `r` at `64 * f + r`), and the header of
/// function 0 decoded from them.
pub struct PciDevice {
    pub bus: u8,
    pub slot: u8,
    pub config: PciHdr,
    pub space: std::vec::Vec<u32>,
}

impl PciDevice {
    /// A device whose functions hold the registers `space`, its header not
    /// decoded yet.
    pub fn new(bus: u8, slot: u8, space: std::vec::Vec<u32>) -> (res: PciDevice)
        requires
            space@.len() == 512,
        ensures
            res.bus == bus,
            res.slot == slot,
            res.space@ == space@,
            res.config.common == PciCommonHdr::default_spec(),
            res.config.header is Unknown,
    {
        PciDevice { bus, slot, config: PciHdr::default(), space }
    }

    /// The register of function `func` (one of the eight a device has)
    /// that `offset` selects (its bits 7-2).
    pub fn config_read_reg(&self, func: u8, offset: u8) -> (res: u32)
        requires
            func < 8,
            self.space@.len() == 512,
        ensures
            res == self.space@[func * 64 + offset / 4],
    {
        let idx: u8 = offset >> 2;
        proof {
            lemma_offset_bits(offset);
        }
        self.space[(func as usize) * 64 + idx as usize]
    }

    /// The word that `offset` selects: its bits 7-2 give the register, its
    /// bit 0 the word.
    pub fn config_read_word(&self, func: u8, offset: u8) -> (res: u16)
        requires
            func < 8,
            self.space@.len() == 512,
        ensures
            res == reg_word(self.space@[func * 64 + offset / 4], offset),
    {
        let reg = self.config_read_reg(func, offset);
        let low: u8 = offset & 0x1;
        proof {
            lemma_offset_bits(offset);
        }
        let sh: u32 = (low as u32) * 16;
        ((reg >> sh) & 0xffff) as u16
    }

    /// The byte that `offset` selects: its bits 7-2 give the register, its
    /// bits 1-0 the byte.
    pub fn config_read_byte(&self, func: u8, offset: u8) -> (res: u8)
        requires
            func < 8,
            self.space@.len() == 512,
        ensures
            res == reg_byte(self.space@[func * 64 + offset / 4], offset),
    {
        let reg = self.config_read_reg(func, offset);
        let low: u8 = offset & 0x3;
        proof {
            lemma_offset_bits(offset);
        }
        let sh: u32 = (low as u32) * 8;
        ((reg >> sh) & 0xff) as u8
    }

    /// Fills the common header.
    pub fn read_common_header(&mut self)
        requires
            old(self).space@.len() == 512,
        ensures
            final(self).space@ == old(self).space@,
            final(self).bus == old(self).bus,
            final(self).slot == old(self).slot,
            final(self).config.header == old(self).config.header,
            final(self).config.common == common_of(old(self).space@),
    {
        let common = PciCommonHdr {
            vendor_id: self.config_read_word(0, 0),
            device_id: self.config_read_word(0, 1),
            command: self.config_read_word(0, 4),
            status: self.config_read_word(0, 5),
            revision_id: self.config_read_byte(0, 8),
            prog_if: self.config_read_byte(0, 9),
            subclass: self.config_read_byte(0, 10),
            class_code: self.config_read_byte(0, 11),
            cache_line_size: self.config_read_byte(0, 12),
            latency_timer: self.config_read_byte(0, 13),
            header_type: self.config_read_byte(0, 14),
            bist: self.config_read_byte(0, 15),
        };
        self.config.common = common;
    }

    /// The standard header from registers 4 to 15.
    fn read_standard_header(&self) -> (res: StandardHdr)
        requires
            self.space@.len() == 512,
        ensures
            res == standard_of(self.space@),
    {
        let base_addr: [u32; 6] = [
            self.config_read_reg(0, 0x10),
            self.config_read_reg(0, 0x14),
            self.config_read_reg(0, 0x18),
            self.config_read_reg(0, 0x1c),
            self.config_read_reg(0, 0x20),
            self.config_read_reg(0, 0x24),
        ];
        StandardHdr {
            base_addr,
            cis_ptr: self.config_read_reg(0, 0x28),
            subs_vid: self.config_read_word(0, 0x2c),
            subs_id: self.config_read_word(0, 0x2d),
            rom_bar: self.config_read_reg(0, 0x30),
            cap_ptr: self.config_read_byte(0, 0x34),
            reserved: [0u8, 0u8, 0u8, 0u8, 0u8, 0u8, 0u8],
            int_line: self.config_read_byte(0, 0x3c),
            int_pin: self.config_read_byte(0, 0x3d),
            min_grant: self.config_read_byte(0, 0x3e),
            max_latency: self.config_read_byte(0, 0x3f),
        }
    }

    /// Decodes the rest of the header by the type in the common header:
    /// type 0 is a standard header; type 3 leaves it as it is. Bridges
    /// (types 1 and 2) are not decoded.
    pub fn read_device_header(&mut self)
        requires
            old(self).space@.len() == 512,
            old(self).config.common.header_type & 3 != 1,
            old(self).config.common.header_type & 3 != 2,
        ensures
            final(self).space@ == old(self).space@,
            final(self).bus == old(self).bus,
            final(self).slot == old(self).slot,
            final(self).config.common == old(self).config.common,
            old(self).config.common.header_type & 3 == 0 ==> final(self).config.header == Headers::Standard(
                standard_of(old(self).space@),
            ),
            old(self).config.common.header_type & 3 == 3 ==> final(self).config.header == old(self).config.header,
    {
        if self.config.common.header_type & 0x3 == 0 {
            self.config.header = Headers::Standard(self.read_standard_header());
        }
    }

    /// Decodes the common header, then the rest.
    pub fn read_all_header(&mut self)
        requires
            old(self).space@.len() == 512,
            common_of(old(self).space@).header_type & 3 != 1,
            common_of(old(self).space@).header_type & 3 != 2,
        ensures
            final(self).space@ == old(self).space@,
            final(self).config.common == common_of(old(self).space@),
            common_of(old(self).space@).header_type & 3 == 0 ==> final(self).config.header == Headers::Standard(
                standard_of(old(self).space@),
            ),
            common_of(old(self).space@).header_type & 3 == 3 ==> final(self).config.header
                == old(self).config.header,
    {
        self.read_common_header();
        self.read_device_header();
    }
}

} // verus!
