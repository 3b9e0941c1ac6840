//! The IDE controller: its four drives and the checks before a transfer.

use vstd::prelude::*;

pub mod ata;
pub mod atapi;
pub mod channel;
pub mod detect;
pub mod packet_capacity;
pub mod packet_eject;
pub mod packet_read;
pub mod transfer;
pub mod device;

use crate::pci::ide::ata::{ATAChannel, STATUS_BSY, STATUS_DRQ, STATUS_ERR};
use crate::pci::ide::channel::IDEChannelRegisters;
use crate::pci::ide::device::{sector_outcome, IDEDevice, SectorAccess};

verus! {

/// The kinds of drives.
#[derive(Debug, Clone, Copy, PartialEq, Eq, Structural)]
pub enum IDEType {
    ATA,
    ATAPI,
}

impl IDEType {
    /// The number of the kind, as drives hold it.
    pub fn number(self) -> (res: u16)
        ensures
            res == (if self == IDEType::ATA { 0u16 } else { 1u16 }),
    {
        match self {
            IDEType::ATA => 0,
            IDEType::ATAPI => 1,
        }
    }
}

/// The kind of drive whose signature bytes (LBA1 and LBA2 registers after
/// a failed identify) are `cl` and `ch`: ATAPI for 0x14, 0xeb or 0x69,
/// 0x96; none otherwise.
pub fn probe_kind(cl: u8, ch: u8) -> (res: Option<u16>)
    ensures
        res == if (cl == 0x14 && ch == 0xeb) || (cl == 0x69 && ch == 0x96) {
            Some(1u16)
        } else {
            None::<u16>
        },
{
    if cl == 0x14 && ch == 0xeb {
        Some(IDEType::ATAPI.number())
    } else if cl == 0x69 && ch == 0x96 {
        Some(IDEType::ATAPI.number())
    } else {
        None
    }
}

/// The port of a base address register: its low two bits cleared, and
/// 16 bits kept.
pub open spec fn bar_port(bar: u32, offset: u32) -> u16 {
    (((bar & 0xffff_fffc) + offset) as u32) as u16
}

/// The two channels of the controller whose base address registers are
/// `bar0` to `bar4`: the primary one's command and control ports from
/// `bar0` and `bar1`, the secondary one's from `bar2` and `bar3`, and
/// their bus master ports 8 apart from `bar4`; interrupts on.
pub fn channels_of(bar0: u32, bar1: u32, bar2: u32, bar3: u32, bar4: u32) -> (res: (
    IDEChannelRegisters,
    IDEChannelRegisters,
))
    requires
        (bar4 & 0xffff_fffc) + 8 <= u32::MAX,
    ensures
        res.0 == (IDEChannelRegisters {
            kind: ATAChannel::Primary,
            base: bar_port(bar0, 0),
            ctrl: bar_port(bar1, 0),
            bmide: bar_port(bar4, 0),
            n_ien: 0,
        }),
        res.1 == (IDEChannelRegisters {
            kind: ATAChannel::Secondary,
            base: bar_port(bar2, 0),
            ctrl: bar_port(bar3, 0),
            bmide: bar_port(bar4, 8),
            n_ien: 0,
        }),
{
    let primary = IDEChannelRegisters::new(
        ATAChannel::Primary,
        #[verifier::truncate] ((bar0 & 0xffff_fffc) as u16),
        #[verifier::truncate] ((bar1 & 0xffff_fffc) as u16),
        #[verifier::truncate] ((bar4 & 0xffff_fffc) as u16),
        0,
    );
    let secondary = IDEChannelRegisters::new(
        ATAChannel::Secondary,
        #[verifier::truncate] ((bar2 & 0xffff_fffc) as u16),
        #[verifier::truncate] ((bar3 & 0xffff_fffc) as u16),
        #[verifier::truncate] (((bar4 & 0xffff_fffc) + 8) as u16),
        0,
    );
    (primary, secondary)
}

/// Where detection stands after reading status `status` while waiting for
/// identification data.
#[derive(Debug, Clone, Copy, PartialEq, Eq, Structural)]
pub enum IdentifyStep {
    /// No drive answers.
    Absent,
    /// The drive reports an error: it may be an ATAPI drive.
    Error,
    /// The data is ready.
    Ready,
    /// Busy: read the status again.
    Wait,
}

/// The detection step for status `status`, `first` telling whether it is
/// the first status read after the identify command.
pub fn identify_step(status: u8, first: bool) -> (res: IdentifyStep)
    ensures
        res == if first && status == 0 {
            IdentifyStep::Absent
        } else if status & STATUS_ERR != 0 {
            IdentifyStep::Error
        } else if status & STATUS_BSY == 0 && status & STATUS_DRQ != 0 {
            IdentifyStep::Ready
        } else {
            IdentifyStep::Wait
        },
{
    if first && status == 0 {
        IdentifyStep::Absent
    } else if (status & STATUS_ERR) != 0 {
        IdentifyStep::Error
    } else if ((status & STATUS_BSY) == 0) && ((status & STATUS_DRQ) != 0) {
        IdentifyStep::Ready
    } else {
        IdentifyStep::Wait
    }
}

/// The controller: two channels of two drives.
pub struct IDEController {
    pub devices: [IDEDevice; 4],
}

impl IDEController {
    /// A controller with four absent drives.
    pub fn new() -> (res: Self)
        ensures
            forall|i: int| 0 <= i < 4 ==> (#[trigger] res.devices@[i]).reserved == 0 && res.devices@[i].channel is None,
    {
        IDEController { devices: [IDEDevice::new(), IDEDevice::new(), IDEDevice::new(), IDEDevice::new()] }
    }

    /// Drive `num`, when it exists.
    pub fn get_device(&self, num: u8) -> (res: Option<&IDEDevice>)
        ensures
            num > 3 || self.devices@[num as int].reserved == 0 ==> res is None,
            num <= 3 && self.devices@[num as int].reserved != 0 ==> res == Some(&self.devices@[num as int]),
    {
        if num > 3 || self.devices[num as usize].reserved == 0 {
            return None;
        }
        Some(&self.devices[num as usize])
    }

    /// Checks a read on drive `drive` (0 to 3) and gives the transfer to
    /// perform.
    pub fn read_sectors(&mut self, drive: u8, numsects: u8, lba: u32, edi: u32) -> (res: Result<SectorAccess, u8>)
        requires
            drive < 4,
            old(self).devices@[drive as int].reserved != 0 ==> lba + numsects <= u32::MAX,
        ensures
            final(self).devices@ == old(self).devices@,
            sector_outcome(old(self).devices@[drive as int], 0, numsects, lba, edi, res),
    {
        let device: &IDEDevice = &self.devices[drive as usize];
        device.read_sectors(numsects, lba, edi)
    }

    /// Checks a write on drive `drive` (0 to 3) and gives the transfer to
    /// perform.
    pub fn write_sectors(&mut self, drive: u8, numsects: u8, lba: u32, edi: u32) -> (res: Result<SectorAccess, u8>)
        requires
            drive < 4,
            old(self).devices@[drive as int].reserved != 0 ==> lba + numsects <= u32::MAX,
        ensures
            final(self).devices@ == old(self).devices@,
            sector_outcome(old(self).devices@[drive as int], 1, numsects, lba, edi, res),
    {
        let mut device: IDEDevice = self.devices[drive as usize];
        device.write_sectors(numsects, lba, edi)
    }
}

} // verus!
