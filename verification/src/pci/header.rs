//! The layouts of PCI configuration headers.

use vstd::prelude::*;

verus! {

/// The header part common to every PCI device.
#[derive(Debug, Clone, Copy, PartialEq, Eq, Structural)]
pub struct PciCommonHdr {
    pub vendor_id: u16,
    pub device_id: u16,
    pub command: u16,
    pub status: u16,
    pub revision_id: u8,
    pub prog_if: u8,
    pub subclass: u8,
    pub class_code: u8,
    pub cache_line_size: u8,
    pub latency_timer: u8,
    pub header_type: u8,
    pub bist: u8,
}

impl Default for PciCommonHdr {
    fn default() -> (res: Self)
        ensures
            res == (PciCommonHdr {
                vendor_id: 0,
                device_id: 0,
                command: 0,
                status: 0,
                revision_id: 0,
                prog_if: 0,
                subclass: 0,
                class_code: 0,
                cache_line_size: 0,
                latency_timer: 0,
                header_type: 0,
                bist: 0,
            }),
    {
        PciCommonHdr {
            vendor_id: 0,
            device_id: 0,
            command: 0,
            status: 0,
            revision_id: 0,
            prog_if: 0,
            subclass: 0,
            class_code: 0,
            cache_line_size: 0,
            latency_timer: 0,
            header_type: 0,
            bist: 0,
        }
    }
}

/// The status register of a device.
pub struct StatusRegister(pub u16);

/// The command register of a device.
pub struct CommandRegister(pub u16);

impl StatusRegister {
    pub const PIN0: u16 = 1;

    /// Sets the bits of `pin`.
    pub fn set(&mut self, pin: u16)
        ensures
            final(self).0 == old(self).0 | pin,
    {
        self.0 = self.0 | pin;
    }
}

/// The rest of the header of a standard device.
#[derive(Debug, Clone, Copy, PartialEq, Eq)]
pub struct StandardHdr {
    pub base_addr: [u32; 6],
    pub cis_ptr: u32,
    pub subs_vid: u16,
    pub subs_id: u16,
    pub rom_bar: u32,
    pub cap_ptr: u8,
    pub reserved: [u8; 7],
    pub int_line: u8,
    pub int_pin: u8,
    pub min_grant: u8,
    pub max_latency: u8,
}

/// The rest of the header of a PCI-to-PCI bridge.
#[derive(Debug, Clone, Copy, Default)]
pub struct PciBridgeHdr {
    pub bar0: u32,
    pub bar1: u32,
    pub sec_lt: u8,
    pub sub_bno: u8,
    pub sec_bno: u8,
    pub prim_bno: u8,
    pub sec_status: u16,
    pub io_limit: u8,
    pub io_base: u8,
    pub mem_limit: u16,
    pub mem_base: u16,
    pub prefetch_mem_limit: u16,
    pub prefetch_mem_base: u16,
    pub prefetch_base_up: u32,
    pub prefetch_limit_up: u32,
    pub io_limit_up: u16,
    pub io_base_up: u16,
    pub reserves: [u8; 3],
    pub cap_ptr: u8,
    pub rom_base_addr: u32,
    pub bridge_ctrl: u16,
    pub int_pin: u8,
    pub int_line: u8,
}

/// The rest of the header of a CardBus bridge.
#[derive(Debug, Clone, Copy, Default)]
pub struct CardBusBridgeHdr {
    pub cb_socket: u32,
    pub sec_status: u16,
    pub reserved: u8,
    pub cap_offset: u8,
    pub cb_latency_timer: u8,
    pub sub_bno: u8,
    pub cb_bno: u8,
    pub pci_bno: u8,
    pub mem_baddr_0: u32,
    pub mem_limit_0: u32,
    pub mem_baddr_1: u32,
    pub mem_limit_1: u32,
    pub io_baddr_0: u32,
    pub io_limit_0: u32,
    pub io_baddr_1: u32,
    pub io_limit_1: u32,
    pub bridge_ctrl: u16,
    pub int_pin: u8,
    pub int_line: u8,
    pub subs_vid: u16,
    pub subs_id: u16,
    pub lmod_baddr: u32,
}

/// The rest of a header, by header type.
#[derive(Debug, Clone, Copy)]
pub enum Headers {
    Standard(StandardHdr),
    PciBridge(PciBridgeHdr),
    CardBusBridge(CardBusBridgeHdr),
    Unknown,
}

/// A whole header.
#[derive(Debug, Clone, Copy)]
pub struct PciHdr {
    pub common: PciCommonHdr,
    pub header: Headers,
}

impl Default for PciHdr {
    fn default() -> (res: Self)
        ensures
            res.common == PciCommonHdr::default_spec(),
            res.header is Unknown,
    {
        PciHdr { common: PciCommonHdr::default(), header: Headers::Unknown }
    }
}

impl PciCommonHdr {
    /// The common header of all zeros.
    pub open spec fn default_spec() -> PciCommonHdr {
        PciCommonHdr {
            vendor_id: 0,
            device_id: 0,
            command: 0,
            status: 0,
            revision_id: 0,
            prog_if: 0,
            subclass: 0,
            class_code: 0,
            cache_line_size: 0,
            latency_timer: 0,
            header_type: 0,
            bist: 0,
        }
    }
}

} // verus!
