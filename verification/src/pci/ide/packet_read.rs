//! Reading sectors from an ATAPI drive, one port access at a time: the
//! read packet is sent once the drive asks for it, then each sector of
//! 2048 bytes is taken after an interrupt and a polling.

use vstd::prelude::*;

use crate::pci::ide::ata::{
    ATACommand, REG_ALTSTATUS, REG_COMMAND, REG_CONTROL, REG_FEATURES, REG_HDDEVSEL, REG_LBA1, REG_LBA2, REG_STATUS,
    STATUS_BSY, STATUS_DRQ,
};
use crate::pci::ide::atapi::{packet_with, ATAPI, ATAPI_READ};
use crate::pci::ide::channel::IDEChannelRegisters;
use crate::pci::ide::transfer::sector_status;

verus! {

/// What an ATAPI read waits for. A polling step's target is 0 for the
/// packet and `k` for the `k`-th sector (from 1).
#[derive(Debug, Clone, Copy, PartialEq, Eq, Structural)]
pub enum ReadPhase {
    /// The interrupts of the channel are being turned on.
    Enabled,
    /// The drive is being selected.
    Selected,
    /// The `n`-th of the four alternate status reads after the selection.
    SelectAlt(u8),
    /// PIO mode is being set.
    Features,
    /// The low byte of the transfer size is being written.
    SizeLow,
    /// The high byte of the transfer size is being written.
    SizeHigh,
    /// The packet command is being sent.
    Commanded,
    /// The `n`-th of the four alternate status reads of a polling.
    PollAlt(u16, u8),
    /// The status of a polling, until the drive is no longer busy.
    PollBusy(u16),
    /// The status that tells whether the polling succeeded.
    PollCheck(u16),
    /// The packet is being sent.
    PacketSent,
    /// The interrupt before the `k`-th sector.
    Irq(u16),
    /// The `k`-th sector is being moved.
    Moved(u16),
    /// The last interrupt.
    FinalIrq,
    /// The status, until the drive is neither busy nor asks for data.
    Drain,
    /// The read is over.
    Done,
    /// The read stopped on this error.
    Failed(u8),
}

/// An ATAPI read of `numsects` sectors from `lba` of drive `drive` on
/// `channel`, into memory at `edi`, and where it stands.
#[derive(Debug, Clone, Copy, PartialEq, Eq, Structural)]
pub struct PacketRead {
    pub channel: IDEChannelRegisters,
    pub drive: u8,
    pub lba: u32,
    pub numsects: u8,
    pub edi: u32,
    pub phase: ReadPhase,
}

/// The port access, or the end, that a read step asks for.
#[derive(Debug, Clone, Copy)]
pub enum ReadAction {
    /// Write `value` to register `reg` of `channel`.
    Write { channel: IDEChannelRegisters, reg: u8, value: u8 },
    /// Read register `reg` of `channel`.
    Read { channel: IDEChannelRegisters, reg: u8 },
    /// Write the packet to port `port`, as six 16-bit words.
    SendPacket { port: u16, packet: [u8; 12] },
    /// Wait for the drive's interrupt.
    WaitIrq,
    /// Read `words` 16-bit words from port `port` into memory at `edi`.
    MoveIn { port: u16, edi: u32, words: u32 },
    /// The read is over, with this outcome.
    Finish(Result<(), u8>),
}

/// What the last access gave.
#[derive(Debug, Clone, Copy, PartialEq, Eq, Structural)]
pub enum ReadEvent {
    /// A write, a move or the wait for an interrupt was made.
    Done,
    /// A register read gave this value.
    Value(u8),
}

/// The phase fits the read, and every sector's memory lies below 4 GiB.
pub open spec fn read_wf(r: PacketRead) -> bool {
    &&& r.edi + r.numsects * 2048 <= u32::MAX
    &&& match r.phase {
        ReadPhase::SelectAlt(n) => 1 <= n <= 4,
        ReadPhase::PollAlt(t, n) => t <= r.numsects && 1 <= n <= 4,
        ReadPhase::PollBusy(t) => t <= r.numsects,
        ReadPhase::PollCheck(t) => t <= r.numsects,
        ReadPhase::Irq(k) => 1 <= k <= r.numsects,
        ReadPhase::Moved(k) => 1 <= k <= r.numsects,
        _ => true,
    }
}

/// The same read in phase `p`.
pub open spec fn read_in(r: PacketRead, p: ReadPhase) -> PacketRead {
    PacketRead { phase: p, ..r }
}

/// What follows the packet or the `k`-th sector: the interrupt before the
/// next sector, or the last one.
pub open spec fn after_move(r: PacketRead, k: u16) -> (PacketRead, ReadAction) {
    if k < r.numsects {
        (read_in(r, ReadPhase::Irq((k + 1) as u16)), ReadAction::WaitIrq)
    } else {
        (read_in(r, ReadPhase::FinalIrq), ReadAction::WaitIrq)
    }
}

/// The step of an ATAPI read from `r` on event `e`.
pub open spec fn read_next(r: PacketRead, e: ReadEvent) -> (PacketRead, ReadAction) {
    let ch = r.channel;
    let status = ReadAction::Read { channel: ch, reg: REG_STATUS };
    let alt = ReadAction::Read { channel: ch, reg: REG_ALTSTATUS };
    match r.phase {
        ReadPhase::Enabled => (
            read_in(r, ReadPhase::Selected),
            ReadAction::Write { channel: ch, reg: REG_HDDEVSEL, value: (r.drive << 4u8) as u8 },
        ),
        ReadPhase::Selected => (read_in(r, ReadPhase::SelectAlt(1)), alt),
        ReadPhase::SelectAlt(n) => if n < 4 {
            (read_in(r, ReadPhase::SelectAlt((n + 1) as u8)), alt)
        } else {
            (read_in(r, ReadPhase::Features), ReadAction::Write { channel: ch, reg: REG_FEATURES, value: 0 })
        },
        ReadPhase::Features => (read_in(r, ReadPhase::SizeLow), ReadAction::Write { channel: ch, reg: REG_LBA1, value: 0 }),
        ReadPhase::SizeLow => (read_in(r, ReadPhase::SizeHigh), ReadAction::Write { channel: ch, reg: REG_LBA2, value: 8 }),
        ReadPhase::SizeHigh => (
            read_in(r, ReadPhase::Commanded),
            ReadAction::Write { channel: ch, reg: REG_COMMAND, value: 0xa0 },
        ),
        ReadPhase::Commanded => (read_in(r, ReadPhase::PollAlt(0, 1)), alt),
        ReadPhase::PollAlt(t, n) => if n < 4 {
            (read_in(r, ReadPhase::PollAlt(t, (n + 1) as u8)), alt)
        } else {
            (read_in(r, ReadPhase::PollBusy(t)), status)
        },
        ReadPhase::PollBusy(t) => match e {
            ReadEvent::Value(st) => if st & STATUS_BSY != 0 {
                (r, status)
            } else {
                (read_in(r, ReadPhase::PollCheck(t)), status)
            },
            _ => (r, status),
        },
        ReadPhase::PollCheck(t) => match e {
            ReadEvent::Value(st) => match sector_status(st) {
                Err(err) => (read_in(r, ReadPhase::Failed(err)), ReadAction::Finish(Err(err))),
                Ok(_) => if t == 0 {
                    (
                        read_in(r, ReadPhase::PacketSent),
                        ReadAction::SendPacket { port: ch.base, packet: packet_with(ATAPI_READ, r.lba, r.numsects) },
                    )
                } else {
                    (
                        read_in(r, ReadPhase::Moved(t)),
                        ReadAction::MoveIn { port: ch.base, edi: (r.edi + (t - 1) * 2048) as u32, words: 1024 },
                    )
                },
            },
            _ => (r, status),
        },
        ReadPhase::PacketSent => after_move(r, 0),
        ReadPhase::Irq(k) => (read_in(r, ReadPhase::PollAlt(k, 1)), alt),
        ReadPhase::Moved(k) => after_move(r, k),
        ReadPhase::FinalIrq => (read_in(r, ReadPhase::Drain), status),
        ReadPhase::Drain => match e {
            ReadEvent::Value(st) => if st & (STATUS_BSY | STATUS_DRQ) == 0 {
                (read_in(r, ReadPhase::Done), ReadAction::Finish(Ok(())))
            } else {
                (r, status)
            },
            _ => (r, status),
        },
        ReadPhase::Done => (r, ReadAction::Finish(Ok(()))),
        ReadPhase::Failed(err) => (r, ReadAction::Finish(Err(err))),
    }
}

fn next_after_move(r: PacketRead, k: u16) -> (res: (PacketRead, ReadAction))
    requires
        k <= r.numsects,
    ensures
        res == after_move(r, k),
{
    if k < r.numsects as u16 {
        (PacketRead { phase: ReadPhase::Irq(k + 1), ..r }, ReadAction::WaitIrq)
    } else {
        (PacketRead { phase: ReadPhase::FinalIrq, ..r }, ReadAction::WaitIrq)
    }
}

impl PacketRead {
    /// Starts reading `numsects` sectors of 2048 bytes from `lba` of drive
    /// `drive` (0 master, 1 slave) on `channel` into memory at `edi`: the
    /// channel's interrupts are turned on (`n_ien` 0, written to the control
    /// register).
    pub fn start(channel: IDEChannelRegisters, drive: u8, lba: u32, numsects: u8, edi: u32) -> (res: (
        PacketRead,
        ReadAction,
    ))
        ensures
            res.0 == (PacketRead {
                channel: IDEChannelRegisters { n_ien: 0, ..channel },
                drive,
                lba,
                numsects,
                edi,
                phase: ReadPhase::Enabled,
            }),
            res.1 == (ReadAction::Write { channel: res.0.channel, reg: REG_CONTROL, value: 0 }),
    {
        let ch = IDEChannelRegisters { n_ien: 0, ..channel };
        (
            PacketRead { channel: ch, drive, lba, numsects, edi, phase: ReadPhase::Enabled },
            ReadAction::Write { channel: ch, reg: REG_CONTROL, value: 0 },
        )
    }

    /// One step of the read (see `read_next`).
    pub fn step(self, e: ReadEvent) -> (res: (PacketRead, ReadAction))
        requires
            read_wf(self),
        ensures
            res == read_next(self, e),
            read_wf(res.0),
    {
        let r = self;
        let ch = r.channel;
        let status = ReadAction::Read { channel: ch, reg: REG_STATUS };
        let alt = ReadAction::Read { channel: ch, reg: REG_ALTSTATUS };
        match r.phase {
            ReadPhase::Enabled => (
                PacketRead { phase: ReadPhase::Selected, ..r },
                ReadAction::Write { channel: ch, reg: REG_HDDEVSEL, value: r.drive << 4 },
            ),
            ReadPhase::Selected => (PacketRead { phase: ReadPhase::SelectAlt(1), ..r }, alt),
            ReadPhase::SelectAlt(n) => if n < 4 {
                (PacketRead { phase: ReadPhase::SelectAlt(n + 1), ..r }, alt)
            } else {
                (PacketRead { phase: ReadPhase::Features, ..r }, ReadAction::Write { channel: ch, reg: REG_FEATURES, value: 0 })
            },
            ReadPhase::Features => (PacketRead { phase: ReadPhase::SizeLow, ..r }, ReadAction::Write { channel: ch, reg: REG_LBA1, value: 0 }),
            ReadPhase::SizeLow => (PacketRead { phase: ReadPhase::SizeHigh, ..r }, ReadAction::Write { channel: ch, reg: REG_LBA2, value: 8 }),
            ReadPhase::SizeHigh => (
                PacketRead { phase: ReadPhase::Commanded, ..r },
                ReadAction::Write { channel: ch, reg: REG_COMMAND, value: ATACommand::Packet.code() },
            ),
            ReadPhase::Commanded => (PacketRead { phase: ReadPhase::PollAlt(0, 1), ..r }, alt),
            ReadPhase::PollAlt(t, n) => if n < 4 {
                (PacketRead { phase: ReadPhase::PollAlt(t, n + 1), ..r }, alt)
            } else {
                (PacketRead { phase: ReadPhase::PollBusy(t), ..r }, status)
            },
            ReadPhase::PollBusy(t) => match e {
                ReadEvent::Value(st) => if st & STATUS_BSY != 0 {
                    (r, status)
                } else {
                    (PacketRead { phase: ReadPhase::PollCheck(t), ..r }, status)
                },
                _ => (r, status),
            },
            ReadPhase::PollCheck(t) => match e {
                ReadEvent::Value(st) => {
                    let mut c = ch;
                    match c.polling(1, st) {
                        Err(err) => (PacketRead { phase: ReadPhase::Failed(err), ..r }, ReadAction::Finish(Err(err))),
                        Ok(_) => if t == 0 {
                            (
                                PacketRead { phase: ReadPhase::PacketSent, ..r },
                                ReadAction::SendPacket { port: ch.base, packet: ATAPI::read(r.lba, r.numsects) },
                            )
                        } else {
                            let edi = r.edi + ((t - 1) as u32) * 2048;
                            (PacketRead { phase: ReadPhase::Moved(t), ..r }, ReadAction::MoveIn { port: ch.base, edi, words: 1024 })
                        },
                    }
                },
                _ => (r, status),
            },
            ReadPhase::PacketSent => next_after_move(r, 0),
            ReadPhase::Irq(k) => (PacketRead { phase: ReadPhase::PollAlt(k, 1), ..r }, alt),
            ReadPhase::Moved(k) => next_after_move(r, k),
            ReadPhase::FinalIrq => (PacketRead { phase: ReadPhase::Drain, ..r }, status),
            ReadPhase::Drain => match e {
                ReadEvent::Value(st) => if st & (STATUS_BSY | STATUS_DRQ) == 0 {
                    (PacketRead { phase: ReadPhase::Done, ..r }, ReadAction::Finish(Ok(())))
                } else {
                    (r, status)
                },
                _ => (r, status),
            },
            ReadPhase::Done => (r, ReadAction::Finish(Ok(()))),
            ReadPhase::Failed(err) => (r, ReadAction::Finish(Err(err))),
        }
    }
}

} // verus!
