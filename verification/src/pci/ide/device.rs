//! An IDE drive: its identity, its errors, and the checks before a
//! transfer.

use vstd::prelude::*;

use crate::pci::ide::ata::{
    plan_for,
    IDENT_CAPABILITIES,
    IDENT_COMMANDSETS,
    IDENT_DEVICETYPE,
    IDENT_MAX_LBA,
    IDENT_MAX_LBA_EXT,
    IDENT_MODEL,
    AccessPlan,
    ERROR_ABRT,
    ERROR_AMNF,
    ERROR_BBK,
    ERROR_IDNF,
    ERROR_MC,
    ERROR_MCR,
    ERROR_TK0NF,
    ERROR_UNC,
    ATA,
};
use crate::bytes::{le16, le32, read_le16, read_le32};
use crate::pci::ide::channel::IDEChannelRegisters;

verus! {

/// A drive: `reserved` is 1 when it exists, `kind` 0 for ATA and 1 for
/// ATAPI, `size` counts sectors.
#[derive(Debug, Clone, Copy)]
pub struct IDEDevice {
    pub reserved: u8,
    pub channel: Option<IDEChannelRegisters>,
    pub drive: u8,
    pub kind: u16,
    pub signature: u16,
    pub capabilities: u16,
    pub command_sets: u32,
    pub size: u32,
    pub model: [u8; 41],
}

/// The error code reported for error `err` of `device`, `st` being its
/// error register: a device fault gives 19, a failed transfer the code of
/// the last of its error bits (no address mark 7, aborted 20, media 3, no
/// ID mark 21, uncorrectable 22, bad block 13), reading nothing 23,
/// writing a protected drive 8; a device without channel gives 23.
pub open spec fn error_code(device: IDEDevice, err: u8, st: u8) -> u8 {
    if err == 0 {
        0
    } else if device.channel is None {
        23
    } else if err == 1 {
        19
    } else if err == 2 {
        let e1: u8 = if st & ERROR_AMNF != 0 { 7 } else { 2 };
        let e2: u8 = if st & ERROR_ABRT != 0 { 20 } else { e1 };
        let e3: u8 = if st & ERROR_TK0NF != 0 || st & ERROR_MCR != 0 || st & ERROR_MC != 0 { 3 } else { e2 };
        let e4: u8 = if st & ERROR_IDNF != 0 { 21 } else { e3 };
        let e5: u8 = if st & ERROR_UNC != 0 { 22 } else { e4 };
        if st & ERROR_BBK != 0 {
            13
        } else {
            e5
        }
    } else if err == 3 {
        23
    } else if err == 4 {
        8
    } else {
        err
    }
}

/// What a transfer of sectors leads to.
#[derive(Debug, Clone)]
pub enum SectorAccess {
    /// A PIO transfer on an ATA drive.
    Ata(AccessPlan),
    /// A read of `numsects` sectors from `lba` on an ATAPI drive, one
    /// sector at a time, into `edi`.
    Atapi { lba: u32, numsects: u8, edi: u32 },
    /// Nothing to do for a drive of another kind.
    Nothing,
}

/// The outcome of a transfer request before any port access: `Err(1)`
/// for a missing drive, `Err(2)` past the end of an ATA drive, else what
/// the drive's kind asks for (a write to an ATAPI drive is refused with 4).
pub open spec fn sector_outcome(
    device: IDEDevice,
    direction: u8,
    numsects: u8,
    lba: u32,
    edi: u32,
    res: Result<SectorAccess, u8>,
) -> bool {
    if device.reserved == 0 {
        res == Err::<SectorAccess, u8>(1)
    } else if lba + numsects > device.size && device.kind == 0 {
        res == Err::<SectorAccess, u8>(2)
    } else if device.kind == 0 {
        match device.channel {
            None => res == Err::<SectorAccess, u8>(error_code(device, 1, 0)),
            Some(ch) => res matches Ok(SectorAccess::Ata(plan)) && plan_for(direction, device, ch, lba, numsects, edi, plan),
        }
    } else if device.kind == 1 {
        if direction == 0 {
            res == Ok::<SectorAccess, u8>(SectorAccess::Atapi { lba, numsects, edi })
        } else {
            res == Err::<SectorAccess, u8>(4)
        }
    } else {
        res matches Ok(SectorAccess::Nothing)
    }
}

/// `dev` is the drive found on `channel` as `drive` of kind `kind`, from
/// its identification space `buf`: its signature, capabilities and command
/// sets, its size for an ATA drive (from the 48-bit field when bit 26 of
/// the command sets says the drive uses it), and its model, whose bytes
/// come in pairs swapped. An ATAPI drive's size is asked apart and is 0
/// here.
pub open spec fn identified_as(dev: IDEDevice, kind: u16, channel: IDEChannelRegisters, drive: u8, buf: Seq<u8>) -> bool {
    &&& identity_fields(dev, kind, channel, drive, buf)
    &&& model_bytes(dev.model@, buf)
}

/// `dev` holds what the identification space `buf` of the drive `drive` of
/// kind `kind` on `channel` gives, but for the model (see `identified_as`).
pub open spec fn identity_fields(dev: IDEDevice, kind: u16, channel: IDEChannelRegisters, drive: u8, buf: Seq<u8>) -> bool {
    &&& dev.reserved == 1
    &&& dev.kind == kind
    &&& dev.channel == Some(channel)
    &&& dev.drive == drive
    &&& dev.signature == le16(buf, IDENT_DEVICETYPE as int)
    &&& dev.capabilities == le16(buf, IDENT_CAPABILITIES as int)
    &&& dev.command_sets == le32(buf, IDENT_COMMANDSETS as int)
    &&& kind == 0 ==> dev.size == if dev.command_sets & 0x400_0000 != 0 {
        le32(buf, IDENT_MAX_LBA_EXT as int)
    } else {
        le32(buf, IDENT_MAX_LBA as int)
    }
    &&& kind != 0 ==> dev.size == 0
}

/// `model` is the model that the identification space `buf` gives: its
/// bytes in pairs swapped, then a 0.
pub open spec fn model_bytes(model: Seq<u8>, buf: Seq<u8>) -> bool {
    &&& model.len() == 41
    &&& forall|k: int| 0 <= k < 20 ==> #[trigger] model[2 * k] == buf[IDENT_MODEL + 2 * k + 1] && model[2 * k + 1]
        == buf[IDENT_MODEL + 2 * k]
    &&& model[40] == 0
}

/// The model that the identification space `buf` gives.
pub open spec fn model_from(buf: Seq<u8>) -> [u8; 41] {
    choose|m: [u8; 41]| model_bytes(m@, buf)
}

/// A model that `buf` gives is the one `model_from` names.
pub proof fn lemma_model_from(buf: Seq<u8>, m: [u8; 41])
    requires
        model_bytes(m@, buf),
    ensures
        model_from(buf) == m,
{
    broadcast use vstd::array::group_array_axioms;
    let c = model_from(buf);
    assert(model_bytes(c@, buf));
    assert forall|i: int| 0 <= i < 41 implies c[i] == m[i] by {
        if i < 40 {
            let k = i / 2;
            assert(c@[2 * k] == m@[2 * k]);
            assert(c@[2 * k + 1] == m@[2 * k + 1]);
        }
    }
    assert(c =~= m);
}

impl IDEDevice {
    /// An absent drive.
    pub fn new() -> (res: Self)
        ensures
            res.reserved == 0,
            res.channel is None,
            res.drive == 0,
            res.kind == 0,
            res.signature == 0,
            res.capabilities == 0,
            res.command_sets == 0,
            res.size == 0,
            res.model@ == Seq::new(41, |i: int| 0u8),
    {
        let res = IDEDevice {
            reserved: 0,
            channel: None,
            drive: 0,
            kind: 0,
            signature: 0,
            capabilities: 0,
            command_sets: 0,
            size: 0,
            model: [0; 41],
        };
        assert(res.model@ =~= Seq::new(41, |i: int| 0u8));
        res
    }

    /// The drive found on `channel` as `drive` of kind `kind`, from its
    /// identification space `buf` (see `identified_as`).
    pub fn from_identify(kind: u16, channel: IDEChannelRegisters, drive: u8, buf: &[u8]) -> (res: Self)
        requires
            buf@.len() >= 512,
        ensures
            identified_as(res, kind, channel, drive, buf@),
    {
        let mut dev = IDEDevice::new();
        dev.reserved = 1;
        dev.kind = kind;
        dev.channel = Some(channel);
        dev.drive = drive;
        dev.signature = read_le16(buf, IDENT_DEVICETYPE);
        dev.capabilities = read_le16(buf, IDENT_CAPABILITIES);
        dev.command_sets = read_le32(buf, IDENT_COMMANDSETS);
        if kind == 0 {
            if (dev.command_sets & 0x400_0000) != 0 {
                dev.size = read_le32(buf, IDENT_MAX_LBA_EXT);
            } else {
                dev.size = read_le32(buf, IDENT_MAX_LBA);
            }
        }
        let mut h: usize = 0;
        while h < 20
            invariant
                h <= 20,
                buf@.len() >= 512,
                dev.model@.len() == 41,
                dev.model@[40] == 0,
                dev.reserved == 1,
                dev.kind == kind,
                dev.channel == Some(channel),
                dev.drive == drive,
                dev.signature == le16(buf@, IDENT_DEVICETYPE as int),
                dev.capabilities == le16(buf@, IDENT_CAPABILITIES as int),
                dev.command_sets == le32(buf@, IDENT_COMMANDSETS as int),
                kind == 0 ==> dev.size == if dev.command_sets & 0x400_0000 != 0 {
                    le32(buf@, IDENT_MAX_LBA_EXT as int)
                } else {
                    le32(buf@, IDENT_MAX_LBA as int)
                },
                kind != 0 ==> dev.size == 0,
                forall|j: int| 0 <= j < h ==> #[trigger] dev.model@[2 * j] == buf@[IDENT_MODEL + 2 * j + 1]
                    && dev.model@[2 * j + 1] == buf@[IDENT_MODEL + 2 * j],
            decreases 20 - h,
        {
            let k = 2 * h;
            let ghost before = dev.model@;
            dev.model[k] = buf[IDENT_MODEL + k + 1];
            dev.model[k + 1] = buf[IDENT_MODEL + k];
            assert forall|j: int| 0 <= j < h + 1 implies #[trigger] dev.model@[2 * j] == buf@[IDENT_MODEL + 2 * j + 1]
                && dev.model@[2 * j + 1] == buf@[IDENT_MODEL + 2 * j] by {
                if j < h {
                    assert(dev.model@[2 * j] == before[2 * j]);
                    assert(dev.model@[2 * j + 1] == before[2 * j + 1]);
                }
            }
            h += 1;
        }
        dev
    }

    /// The error code reported for error `err`, `error_reg` being the
    /// drive's error register as read.
    pub fn print_error(&self, err: u8, error_reg: u8) -> (res: u8)
        ensures
            res == error_code(*self, err, error_reg),
    {
        if err == 0 {
            return err;
        }
        if self.channel.is_none() {
            return 23;
        }
        let st = error_reg;
        let mut code = err;
        if err == 1 {
            code = 19;
        } else if err == 2 {
            if (st & ERROR_AMNF) != 0 {
                code = 7;
            }
            if (st & ERROR_ABRT) != 0 {
                code = 20;
            }
            if ((st & ERROR_TK0NF) != 0) || ((st & ERROR_MCR) != 0) || ((st & ERROR_MC) != 0) {
                code = 3;
            }
            if (st & ERROR_IDNF) != 0 {
                code = 21;
            }
            if (st & ERROR_UNC) != 0 {
                code = 22;
            }
            if (st & ERROR_BBK) != 0 {
                code = 13;
            }
        } else if err == 3 {
            code = 23;
        } else if err == 4 {
            code = 8;
        }
        code
    }

    fn transfer(&self, direction: u8, numsects: u8, lba: u32, edi: u32) -> (res: Result<SectorAccess, u8>)
        requires
            direction <= 1,
            self.reserved != 0 ==> lba + numsects <= u32::MAX,
        ensures
            sector_outcome(*self, direction, numsects, lba, edi, res),
    {
        if self.reserved == 0 {
            Err(0x1)
        } else if (lba + numsects as u32 > self.size) && (self.kind == 0) {
            Err(0x2)
        } else if self.kind == 0 {
            match ATA::access(direction, self, lba, numsects, edi) {
                Ok(plan) => Ok(SectorAccess::Ata(plan)),
                Err(err) => Err(self.print_error(err, 0)),
            }
        } else if self.kind == 1 {
            if direction == 0 {
                Ok(SectorAccess::Atapi { lba, numsects, edi })
            } else {
                Err(0x4)
            }
        } else {
            Ok(SectorAccess::Nothing)
        }
    }

    /// Checks a read of `numsects` sectors at `lba` into `edi` and gives
    /// the transfer to perform.
    pub fn read_sectors(&self, numsects: u8, lba: u32, edi: u32) -> (res: Result<SectorAccess, u8>)
        requires
            self.reserved != 0 ==> lba + numsects <= u32::MAX,
        ensures
            sector_outcome(*self, 0, numsects, lba, edi, res),
    {
        self.transfer(0, numsects, lba, edi)
    }

    /// Checks a write of `numsects` sectors at `lba` from `edi` and gives
    /// the transfer to perform.
    pub fn write_sectors(&mut self, numsects: u8, lba: u32, edi: u32) -> (res: Result<SectorAccess, u8>)
        requires
            old(self).reserved != 0 ==> lba + numsects <= u32::MAX,
        ensures
            *final(self) == *old(self),
            sector_outcome(*old(self), 1, numsects, lba, edi, res),
    {
        self.transfer(1, numsects, lba, edi)
    }
}

} // verus!
