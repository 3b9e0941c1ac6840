//! ATA registers, commands, and the plan of a PIO transfer.

use vstd::prelude::*;

use crate::io::{lemma_u16_bytes, lemma_u32_bytes};
use crate::pci::ide::channel::IDEChannelRegisters;
use crate::pci::ide::device::IDEDevice;

verus! {

pub const SECTOR_SIZE: u32 = 512;

/// Status bits.
pub const STATUS_BSY: u8 = 0x80;

pub const STATUS_DRDY: u8 = 0x40;

pub const STATUS_DF: u8 = 0x20;

pub const STATUS_DSC: u8 = 0x10;

pub const STATUS_DRQ: u8 = 0x08;

pub const STATUS_CORR: u8 = 0x04;

pub const STATUS_IDX: u8 = 0x02;

pub const STATUS_ERR: u8 = 0x01;

/// Error bits.
pub const ERROR_BBK: u8 = 0x80;

pub const ERROR_UNC: u8 = 0x40;

pub const ERROR_MC: u8 = 0x20;

pub const ERROR_IDNF: u8 = 0x10;

pub const ERROR_MCR: u8 = 0x08;

pub const ERROR_ABRT: u8 = 0x04;

pub const ERROR_TK0NF: u8 = 0x02;

pub const ERROR_AMNF: u8 = 0x01;

/// Offsets in the identification space.
pub const IDENT_DEVICETYPE: usize = 0;

pub const IDENT_CYLINDERS: usize = 2;

pub const IDENT_HEADS: usize = 6;

pub const IDENT_SECTORS: usize = 12;

pub const IDENT_SERIAL: usize = 20;

pub const IDENT_MODEL: usize = 54;

pub const IDENT_CAPABILITIES: usize = 98;

pub const IDENT_FIELDVALID: usize = 106;

pub const IDENT_MAX_LBA: usize = 120;

pub const IDENT_COMMANDSETS: usize = 164;

pub const IDENT_MAX_LBA_EXT: usize = 200;

/// Channel registers.
pub const REG_DATA: u8 = 0x00;

pub const REG_ERROR: u8 = 0x01;

pub const REG_FEATURES: u8 = 0x01;

pub const REG_SECCOUNT0: u8 = 0x02;

pub const REG_LBA0: u8 = 0x03;

pub const REG_LBA1: u8 = 0x04;

pub const REG_LBA2: u8 = 0x05;

pub const REG_HDDEVSEL: u8 = 0x06;

pub const REG_COMMAND: u8 = 0x07;

pub const REG_STATUS: u8 = 0x07;

pub const REG_SECCOUNT1: u8 = 0x08;

pub const REG_LBA3: u8 = 0x09;

pub const REG_LBA4: u8 = 0x0a;

pub const REG_LBA5: u8 = 0x0b;

pub const REG_CONTROL: u8 = 0x0c;

pub const REG_ALTSTATUS: u8 = 0x0c;

pub const REG_DEVADDRESS: u8 = 0x0d;

/// ATA commands.
#[derive(Debug, Clone, Copy, PartialEq, Eq, Structural)]
pub enum ATACommand {
    ReadPio,
    ReadPioExt,
    ReadDma,
    ReadDmaExt,
    WritePio,
    WritePioExt,
    WriteDma,
    WriteDmaExt,
    CacheFlush,
    CacheFlushExt,
    Packet,
    IdentifyPacket,
    Identify,
}

/// The code of a command.
pub open spec fn command_code(c: ATACommand) -> u8 {
    match c {
        ATACommand::ReadPio => 0x20,
        ATACommand::ReadPioExt => 0x24,
        ATACommand::ReadDma => 0xc8,
        ATACommand::ReadDmaExt => 0x25,
        ATACommand::WritePio => 0x30,
        ATACommand::WritePioExt => 0x34,
        ATACommand::WriteDma => 0xca,
        ATACommand::WriteDmaExt => 0x35,
        ATACommand::CacheFlush => 0xe7,
        ATACommand::CacheFlushExt => 0xea,
        ATACommand::Packet => 0xa0,
        ATACommand::IdentifyPacket => 0xa1,
        ATACommand::Identify => 0xec,
    }
}

impl ATACommand {
    pub fn code(self) -> (res: u8)
        ensures
            res == command_code(self),
    {
        match self {
            ATACommand::ReadPio => 0x20,
            ATACommand::ReadPioExt => 0x24,
            ATACommand::ReadDma => 0xc8,
            ATACommand::ReadDmaExt => 0x25,
            ATACommand::WritePio => 0x30,
            ATACommand::WritePioExt => 0x34,
            ATACommand::WriteDma => 0xca,
            ATACommand::WriteDmaExt => 0x35,
            ATACommand::CacheFlush => 0xe7,
            ATACommand::CacheFlushExt => 0xea,
            ATACommand::Packet => 0xa0,
            ATACommand::IdentifyPacket => 0xa1,
            ATACommand::Identify => 0xec,
        }
    }
}

/// The drive on a channel.
#[derive(Debug, Clone, Copy, PartialEq, Eq, Structural)]
pub enum ATAType {
    MASTER,
    SLAVE,
}

/// The channel of a controller.
#[derive(Debug, Clone, Copy, PartialEq, Eq, Structural)]
pub enum ATAChannel {
    Primary,
    Secondary,
}

/// The direction of a transfer.
#[derive(Debug, Clone, Copy, PartialEq, Eq, Structural)]
pub enum ATADirection {
    Read,
    Write,
}

/// A register of the channel and the byte to write to it.
#[derive(Debug, Clone, Copy, PartialEq, Eq, Structural)]
pub struct RegWrite {
    pub reg: u8,
    pub value: u8,
}

/// What a PIO transfer does: it disables the channel's interrupts
/// (`n_ien` 2, written to the control register), waits while the drive is
/// busy, writes `writes` in order, sends `command`, then moves `sectors`
/// sectors of `words` words at `bus` from or to memory at `edi`, polling
/// before each; a write ends with `flush` and a last polling. `start` and
/// `step` (see `transfer.rs`) carry it out one port access at a time.
#[derive(Debug, Clone)]
pub struct AccessPlan {
    pub lba_mode: u8,
    pub lba_io: [u8; 6],
    pub head: u8,
    pub writes: std::vec::Vec<RegWrite>,
    pub command: u8,
    pub flush: Option<u8>,
    pub sectors: u8,
    pub words: u32,
    pub bus: u16,
    pub edi: u32,
}

/// The addressing mode for `lba`: 48-bit from 2^28 on, else 28-bit when
/// the drive supports LBA (bit 9 of its capabilities), else CHS.
pub open spec fn lba_mode_of(lba: u32, capabilities: u16) -> u8 {
    if lba >= 0x1000_0000 {
        2
    } else if capabilities & 0x200 != 0 {
        1
    } else {
        0
    }
}

/// The sector of the CHS address of `lba` (1-based).
pub open spec fn chs_sector(lba: u32) -> int {
    lba % 63 + 1
}

/// The cylinder of the CHS address of `lba`, on 16 bits.
pub open spec fn chs_cylinder(lba: u32) -> u16 {
    ((lba - lba % 63) / 1008) as u16
}

/// The head of the CHS address of `lba`.
pub open spec fn chs_head(lba: u32) -> u8 {
    (((lba - lba % 63) % 1008) / 63) as u8
}

/// The six LBA register bytes for `lba` in mode `mode`.
pub open spec fn lba_bytes(lba: u32, mode: u8) -> [u8; 6] {
    if mode == 2 {
        [(lba % 256) as u8, ((lba / 256) % 256) as u8, ((lba / 65536) % 256) as u8, (lba / 16777216) as u8, 0, 0]
    } else if mode == 1 {
        [(lba % 256) as u8, ((lba / 256) % 256) as u8, ((lba / 65536) % 256) as u8, 0, 0, 0]
    } else {
        [
            chs_sector(lba) as u8,
            (chs_cylinder(lba) % 256) as u8,
            (chs_cylinder(lba) / 256) as u8,
            0,
            0,
            0,
        ]
    }
}

/// The low four bits of the drive select register for `lba` in mode
/// `mode`.
pub open spec fn head_of(lba: u32, mode: u8) -> u8 {
    if mode == 2 {
        0
    } else if mode == 1 {
        ((lba / 16777216) % 16) as u8
    } else {
        chs_head(lba)
    }
}

/// The PIO command for `direction` (0 read, 1 write) in mode `mode`.
pub open spec fn pio_command(direction: u8, mode: u8) -> u8 {
    if direction == 0 {
        if mode == 2 {
            command_code(ATACommand::ReadPioExt)
        } else {
            command_code(ATACommand::ReadPio)
        }
    } else {
        if mode == 2 {
            command_code(ATACommand::WritePioExt)
        } else {
            command_code(ATACommand::WritePio)
        }
    }
}

/// The register writes that set up a transfer of `numsects` sectors.
pub open spec fn setup_writes(select: u8, io: [u8; 6], mode: u8, numsects: u8) -> Seq<RegWrite> {
    let wide = if mode == 2 {
        seq![
            RegWrite { reg: REG_SECCOUNT1, value: 0 },
            RegWrite { reg: REG_LBA3, value: io[3] },
            RegWrite { reg: REG_LBA4, value: io[4] },
            RegWrite { reg: REG_LBA5, value: io[5] },
        ]
    } else {
        Seq::<RegWrite>::empty()
    };
    seq![RegWrite { reg: REG_HDDEVSEL, value: select }] + wide + seq![
        RegWrite { reg: REG_SECCOUNT0, value: numsects },
        RegWrite { reg: REG_LBA0, value: io[0] },
        RegWrite { reg: REG_LBA1, value: io[1] },
        RegWrite { reg: REG_LBA2, value: io[2] },
    ]
}

/// `plan` is the plan of a PIO transfer of `numsects` sectors at `lba`
/// for `device` on channel `ch`, in `direction`, at `edi`.
pub open spec fn plan_for(
    direction: u8,
    device: IDEDevice,
    ch: IDEChannelRegisters,
    lba: u32,
    numsects: u8,
    edi: u32,
    plan: AccessPlan,
) -> bool {
    let mode = lba_mode_of(lba, device.capabilities);
    let io = lba_bytes(lba, mode);
    let head = head_of(lba, mode);
    let select = (if mode == 0 { 0xa0u8 } else { 0xe0u8 }) | ((device.drive << 4u8) as u8) | head;
    &&& plan.lba_mode == mode
    &&& plan.lba_io == io
    &&& plan.head == head
    &&& plan.writes@ == setup_writes(select, io, mode, numsects)
    &&& plan.command == pio_command(direction, mode)
    &&& plan.flush == (if direction == 0 {
        None
    } else if mode == 2 {
        Some(command_code(ATACommand::CacheFlushExt))
    } else {
        Some(command_code(ATACommand::CacheFlush))
    })
    &&& plan.sectors == numsects
    &&& plan.words == SECTOR_SIZE / 2
    &&& plan.bus == ch.base
    &&& plan.edi == edi
}

/// The bytes of a 32-bit value, low first, recombine to it.
proof fn lemma_bytes_recombine(x: u32)
    by (bit_vector)
    ensures
        x == x % 256 + 256 * ((x / 256) % 256) + 65536 * ((x / 65536) % 256) + 16777216 * (x / 16777216),
        x / 16777216 < 256,
{
}

/// The drive select register keeps the head in its low four bits.
proof fn lemma_select_head(base: u8, drive: u8, head: u8)
    requires
        base == 0xa0u8 || base == 0xe0u8,
        head < 16,
    ensures
        (base | ((drive << 4u8) as u8) | head) & 0x0fu8 == head,
{
    lemma_select_bits(base, drive, head);
}

/// A plan addresses the sector it is asked for: the drive select register
/// is written first and holds the head in its low four bits, and the
/// three LBA registers are written last, in the order LBA0, LBA1, LBA2.
/// With 28-bit addressing their bytes, low first, and the head recombine
/// to `lba`; with 48-bit addressing the three bytes and the one written to
/// LBA3 do (the higher registers hold 0); with CHS addressing the sector
/// (LBA0, from 1 to 63), the cylinder (LBA1 low, LBA2 high) and the head
/// (below 16) give `lba` as (cylinder * 16 + head) * 63 + sector - 1, for
/// every `lba` whose cylinder fits in 16 bits.
pub proof fn lemma_access_addresses_lba(
    direction: u8,
    device: IDEDevice,
    ch: IDEChannelRegisters,
    lba: u32,
    numsects: u8,
    edi: u32,
    plan: AccessPlan,
)
    requires
        plan_for(direction, device, ch, lba, numsects, edi, plan),
    ensures
        ({
            let w = plan.writes@;
            let n = w.len();
            let v0 = w[n - 3].value as int;
            let v1 = w[n - 2].value as int;
            let v2 = w[n - 1].value as int;
            &&& n >= 4
            &&& w[0].reg == REG_HDDEVSEL
            &&& w[0].value & 0x0fu8 == plan.head
            &&& w[n - 3].reg == REG_LBA0
            &&& w[n - 2].reg == REG_LBA1
            &&& w[n - 1].reg == REG_LBA2
            &&& plan.lba_mode == 1 ==> plan.head < 16 && v0 + 256 * v1 + 65536 * v2 + 16777216 * plan.head == lba
            &&& plan.lba_mode == 2 ==> {
                &&& w[2].reg == REG_LBA3
                &&& w[3].reg == REG_LBA4 && w[3].value == 0
                &&& w[4].reg == REG_LBA5 && w[4].value == 0
                &&& v0 + 256 * v1 + 65536 * v2 + 16777216 * w[2].value == lba
            }
            &&& plan.lba_mode == 0 && lba < 1008 * 65536 ==> {
                &&& 1 <= v0 <= 63
                &&& plan.head < 16
                &&& ((v1 + 256 * v2) * 16 + plan.head) * 63 + v0 - 1 == lba
            }
        }),
{
    let mode = plan.lba_mode;
    let w = plan.writes@;
    let n = w.len();
    lemma_bytes_recombine(lba);
    if mode == 0 {
        let q = lba / 63;
        let r = lba % 63;
        vstd::arithmetic::div_mod::lemma_fundamental_div_mod(lba as int, 63);
        assert(lba - r == 63 * q);
        vstd::arithmetic::div_mod::lemma_fundamental_div_mod(q as int, 16);
        let c = q / 16;
        let h = q % 16;
        assert(63 * q == 1008 * c + 63 * h);
        assert((63 * q) / 1008 == c) by {
            vstd::arithmetic::div_mod::lemma_div_multiples_vanish_fancy(c as int, 63 * h, 1008);
        }
        assert((63 * q) % 1008 == 63 * h) by {
            vstd::arithmetic::div_mod::lemma_mod_multiples_vanish(c as int, 63 * h, 1008);
            vstd::arithmetic::div_mod::lemma_small_mod((63 * h) as nat, 1008);
        }
        assert((63 * h) / 63 == h) by {
            vstd::arithmetic::div_mod::lemma_div_multiples_vanish(h as int, 63);
        }
        if lba < 1008 * 65536 {
            assert(c < 65536);
            let cyl = chs_cylinder(lba);
            assert(cyl == c);
            assert(cyl % 256 + 256 * (cyl / 256) == cyl);
        }
        assert(chs_head(lba) == h);
        lemma_select_head(0xa0u8, device.drive, plan.head);
    } else {
        lemma_select_head(0xe0u8, device.drive, plan.head);
    }
}

/// The bits of the drive select register: the head in the low four, bits
/// 7 and 5 set, bit 6 set exactly with LBA addressing (base 0xe0), bit 4
/// the drive.
proof fn lemma_select_bits(base: u8, drive: u8, head: u8)
    by (bit_vector)
    requires
        base == 0xa0u8 || base == 0xe0u8,
        head < 16,
    ensures
        (base | ((drive << 4u8) as u8) | head) & 0x0fu8 == head,
        (base | ((drive << 4u8) as u8) | head) & 0xa0u8 == 0xa0u8,
        drive < 2 ==> (((base | ((drive << 4u8) as u8) | head) & 0x40u8 != 0) == (base == 0xe0u8)),
        drive < 2 ==> (((base | ((drive << 4u8) as u8) | head) & 0x10u8 != 0) == (drive == 1)),
{
}

/// A plan uses 48-bit addressing exactly for sectors from 2^28 on, which
/// 28 bits cannot address, and otherwise 28-bit addressing when the drive
/// has LBA (bit 9 of its capabilities), CHS without; the select register
/// says LBA (bit 6) exactly when the plan does not use CHS and names the
/// drive (bit 4); the sector count is written just before the LBA
/// registers. A read sends READ PIO (0x20, or 0x24 in 48-bit) and flushes
/// nothing; a write sends WRITE PIO (0x30, or 0x34 in 48-bit) and ends with
/// CACHE FLUSH (0xe7, or 0xea in 48-bit).
pub proof fn lemma_access_mode_and_command(
    direction: u8,
    device: IDEDevice,
    ch: IDEChannelRegisters,
    lba: u32,
    numsects: u8,
    edi: u32,
    plan: AccessPlan,
)
    requires
        plan_for(direction, device, ch, lba, numsects, edi, plan),
        direction <= 1,
    ensures
        (plan.lba_mode == 2) == (lba >= 0x1000_0000),
        lba < 0x1000_0000 ==> ((plan.lba_mode == 1) == (device.capabilities & 0x200 != 0)),
        plan.lba_mode <= 2,
        ({
            let w = plan.writes@;
            let n = w.len();
            &&& n >= 4
            &&& w[n - 4] == (RegWrite { reg: REG_SECCOUNT0, value: numsects })
            &&& w[0].value & 0xa0u8 == 0xa0u8
            &&& device.drive < 2 ==> ((w[0].value & 0x40u8 != 0) == (plan.lba_mode != 0))
            &&& device.drive < 2 ==> ((w[0].value & 0x10u8 != 0) == (device.drive == 1))
        }),
        direction == 0 ==> plan.command == (if lba >= 0x1000_0000 { 0x24u8 } else { 0x20u8 }) && plan.flush is None,
        direction == 1 ==> plan.command == (if lba >= 0x1000_0000 { 0x34u8 } else { 0x30u8 }) && plan.flush == Some(
            if lba >= 0x1000_0000 { 0xeau8 } else { 0xe7u8 },
        ),
        plan.sectors == numsects,
        plan.words == 256,
        plan.bus == ch.base,
        plan.edi == edi,
{
    lemma_access_addresses_lba(direction, device, ch, lba, numsects, edi, plan);
    if plan.lba_mode == 0 {
        lemma_select_bits(0xa0u8, device.drive, plan.head);
    } else {
        lemma_select_bits(0xe0u8, device.drive, plan.head);
    }
}

/// A drive driven by PIO.
pub struct ATA {}

impl ATA {
    /// The plan of a PIO transfer of `numsects` sectors at `lba` for
    /// `device`, reading (`direction` 0) or writing (1) at `edi`; `Err(1)`
    /// when the device has no channel.
    pub fn access(direction: u8, device: &IDEDevice, lba: u32, numsects: u8, edi: u32) -> (res: Result<
        AccessPlan,
        u8,
    >)
        requires
            device.channel is Some ==> direction <= 1,
        ensures
            device.channel is None ==> res == Err::<AccessPlan, u8>(1),
            device.channel matches Some(ch) ==> (res matches Ok(plan) && plan_for(direction, *device, ch, lba, numsects, edi, plan)),
    {
        let channel = match device.channel {
            Some(c) => c,
            None => {
                return Err(1);
            },
        };
        let mut lba_io: [u8; 6] = [0; 6];
        let lba_mode: u8;
        let head: u8;
        if lba >= 0x1000_0000 {
            lba_mode = 2;
            lba_io[0] = (lba & 0xff) as u8;
            lba_io[1] = ((lba & 0xff00) >> 8) as u8;
            lba_io[2] = ((lba & 0xff_0000) >> 16) as u8;
            lba_io[3] = ((lba & 0xff00_0000) >> 24) as u8;
            head = 0;
            proof {
                lemma_u32_bytes(lba);
            }
        } else if device.capabilities & 0x200 != 0 {
            lba_mode = 1;
            lba_io[0] = (lba & 0xff) as u8;
            lba_io[1] = ((lba & 0xff00) >> 8) as u8;
            lba_io[2] = ((lba & 0xff_0000) >> 16) as u8;
            head = ((lba & 0xf00_0000) >> 24) as u8;
            proof {
                lemma_u32_bytes(lba);
            }
        } else {
            lba_mode = 0;
            let sect: u8 = ((lba % 63) + 1) as u8;
            let cyl: u16 = ((lba + 1 - sect as u32) / (16 * 63)) as u16;
            lba_io[0] = sect;
            lba_io[1] = (cyl & 0xff) as u8;
            lba_io[2] = ((cyl >> 8) & 0xff) as u8;
            head = (((lba + 1 - sect as u32) % (16 * 63)) / 63) as u8;
            proof {
                lemma_u16_bytes(cyl);
            }
        }
        assert(lba_io =~= lba_bytes(lba, lba_mode));
        let base: u8 = if lba_mode == 0 {
            0xa0
        } else {
            0xe0
        };
        let select: u8 = base | (device.drive << 4) | head;
        let mut writes: std::vec::Vec<RegWrite> = std::vec::Vec::new();
        writes.push(RegWrite { reg: REG_HDDEVSEL, value: select });
        if lba_mode == 2 {
            writes.push(RegWrite { reg: REG_SECCOUNT1, value: 0 });
            writes.push(RegWrite { reg: REG_LBA3, value: lba_io[3] });
            writes.push(RegWrite { reg: REG_LBA4, value: lba_io[4] });
            writes.push(RegWrite { reg: REG_LBA5, value: lba_io[5] });
        }
        writes.push(RegWrite { reg: REG_SECCOUNT0, value: numsects });
        writes.push(RegWrite { reg: REG_LBA0, value: lba_io[0] });
        writes.push(RegWrite { reg: REG_LBA1, value: lba_io[1] });
        writes.push(RegWrite { reg: REG_LBA2, value: lba_io[2] });
        assert(writes@ =~= setup_writes(select, lba_io, lba_mode, numsects));
        let command: u8 = if direction == 0 {
            if lba_mode == 2 {
                ATACommand::ReadPioExt.code()
            } else {
                ATACommand::ReadPio.code()
            }
        } else {
            if lba_mode == 2 {
                ATACommand::WritePioExt.code()
            } else {
                ATACommand::WritePio.code()
            }
        };
        let flush: Option<u8> = if direction == 0 {
            None
        } else if lba_mode == 2 {
            Some(ATACommand::CacheFlushExt.code())
        } else {
            Some(ATACommand::CacheFlush.code())
        };
        Ok(
            AccessPlan {
                lba_mode,
                lba_io,
                head,
                writes,
                command,
                flush,
                sectors: numsects,
                words: SECTOR_SIZE / 2,
                bus: channel.base,
                edi,
            },
        )
    }
}

} // verus!
