//! Asking an ATAPI drive its capacity, one port access at a time.

use vstd::prelude::*;

use crate::pci::ide::ata::{
    REG_ALTSTATUS, REG_COMMAND, REG_CONTROL, REG_FEATURES, REG_HDDEVSEL, REG_LBA1, REG_LBA2, REG_STATUS, STATUS_BSY,
    STATUS_DRQ,
};
use crate::pci::ide::atapi::{capacity_of, packet_with, swap_bytes, ATAPI, ATAPI_CAPACITY};
use crate::pci::ide::channel::IDEChannelRegisters;
use crate::pci::ide::transfer::sector_status;

verus! {

/// What a capacity request waits for. A polling step's target is 0 before
/// the packet and 1 after it.
#[derive(Debug, Clone, Copy, PartialEq, Eq, Structural)]
pub enum CapacityPhase {
    /// The interrupts of the channel are being turned on.
    Enabled,
    /// The drive is being selected.
    Selected,
    /// The `n`-th of the four alternate status reads after the selection.
    SelectAlt(u8),
    /// PIO mode is being set.
    Featured,
    /// The low byte of the answer's size (8 bytes) is being written.
    SizeLow,
    /// Its high byte is being written.
    SizeHigh,
    /// The packet command is being sent.
    Commanded,
    /// The `n`-th of the four alternate status reads of a polling.
    PollAlt(u8, u8),
    /// The status of a polling, until the drive is no longer busy.
    PollBusy(u8),
    /// The status that tells whether the polling succeeded.
    PollCheck(u8),
    /// The packet is being sent.
    PacketSent,
    /// The answer is being read.
    Answering,
    /// The status, until the drive is neither busy nor asks for data, with
    /// the answer read: the last block address and the block size.
    Draining(u32, u32),
    /// The request is over, with this capacity.
    Done(u32),
    /// The request stopped on this error.
    Failed(u8),
}

/// A capacity request to drive `drive` of `channel` with packet `packet`,
/// and where it stands.
#[derive(Debug, Clone, Copy)]
pub struct PacketCapacity {
    pub channel: IDEChannelRegisters,
    pub drive: u8,
    pub packet: [u8; 12],
    pub phase: CapacityPhase,
}

/// The port access, or the end, that a capacity step asks for.
#[derive(Debug, Clone, Copy)]
pub enum CapacityAction {
    /// Write `value` to register `reg` of `channel`.
    Write { channel: IDEChannelRegisters, reg: u8, value: u8 },
    /// Read register `reg` of `channel`.
    Read { channel: IDEChannelRegisters, reg: u8 },
    /// Write the packet to port `port`, as six 16-bit words.
    SendPacket { port: u16, packet: [u8; 12] },
    /// Read the answer from port `port`: four 16-bit words, the first two
    /// making one 32-bit word (low half first) and the last two another.
    ReadAnswer { port: u16 },
    /// The request is over, with the capacity in units of 512 bytes, or
    /// an error.
    Finish(Result<u32, u8>),
}

/// What the last access gave.
#[derive(Debug, Clone, Copy, PartialEq, Eq, Structural)]
pub enum CapacityEvent {
    /// A write was made.
    Done,
    /// A register read gave this value.
    Value(u8),
    /// The answer was read: its two 32-bit words.
    Answer(u32, u32),
}

/// The phase's counters are in range, and an answer being drained gives a
/// capacity that fits in 32 bits.
pub open spec fn capacity_wf(r: PacketCapacity) -> bool {
    match r.phase {
        CapacityPhase::SelectAlt(n) => 1 <= n <= 4,
        CapacityPhase::PollAlt(t, n) => t <= 1 && 1 <= n <= 4,
        CapacityPhase::PollBusy(t) => t <= 1,
        CapacityPhase::PollCheck(t) => t <= 1,
        CapacityPhase::Draining(last, size) => answer_fits(last, size),
        _ => true,
    }
}

/// The capacity computed from an answer fits in 32 bits.
pub open spec fn answer_fits(last: u32, size: u32) -> bool {
    &&& swap_bytes(last) < u32::MAX
    &&& (swap_bytes(last) + 1) * swap_bytes(size) <= u32::MAX
}

/// Event `e` is one that step `r` may be given: an answer, when it is
/// being read, gives a capacity that fits in 32 bits.
pub open spec fn capacity_event_ok(r: PacketCapacity, e: CapacityEvent) -> bool {
    r.phase == CapacityPhase::Answering ==> match e {
        CapacityEvent::Answer(last, size) => answer_fits(last, size),
        _ => true,
    }
}

/// The same request in phase `p`.
pub open spec fn capacity_in(r: PacketCapacity, p: CapacityPhase) -> PacketCapacity {
    PacketCapacity { phase: p, ..r }
}

/// The step of a capacity request from `r` on event `e`: the drive is
/// selected, PIO mode and an 8-byte answer announced, the packet command
/// sent and, after a polling, the packet; after a second polling the
/// answer is read, and once the drive is neither busy nor asks for data
/// the capacity is given (see `capacity_of`).
pub open spec fn capacity_next(r: PacketCapacity, e: CapacityEvent) -> (PacketCapacity, CapacityAction) {
    let ch = r.channel;
    let status = CapacityAction::Read { channel: ch, reg: REG_STATUS };
    let alt = CapacityAction::Read { channel: ch, reg: REG_ALTSTATUS };
    match r.phase {
        CapacityPhase::Enabled => (
            capacity_in(r, CapacityPhase::Selected),
            CapacityAction::Write { channel: ch, reg: REG_HDDEVSEL, value: (r.drive << 4u8) as u8 },
        ),
        CapacityPhase::Selected => (capacity_in(r, CapacityPhase::SelectAlt(1)), alt),
        CapacityPhase::SelectAlt(n) => if n < 4 {
            (capacity_in(r, CapacityPhase::SelectAlt((n + 1) as u8)), alt)
        } else {
            (capacity_in(r, CapacityPhase::Featured), CapacityAction::Write { channel: ch, reg: REG_FEATURES, value: 0 })
        },
        CapacityPhase::Featured => (
            capacity_in(r, CapacityPhase::SizeLow),
            CapacityAction::Write { channel: ch, reg: REG_LBA1, value: 8 },
        ),
        CapacityPhase::SizeLow => (
            capacity_in(r, CapacityPhase::SizeHigh),
            CapacityAction::Write { channel: ch, reg: REG_LBA2, value: 0 },
        ),
        CapacityPhase::SizeHigh => (
            capacity_in(r, CapacityPhase::Commanded),
            CapacityAction::Write { channel: ch, reg: REG_COMMAND, value: 0xa0 },
        ),
        CapacityPhase::Commanded => (capacity_in(r, CapacityPhase::PollAlt(0, 1)), alt),
        CapacityPhase::PollAlt(t, n) => if n < 4 {
            (capacity_in(r, CapacityPhase::PollAlt(t, (n + 1) as u8)), alt)
        } else {
            (capacity_in(r, CapacityPhase::PollBusy(t)), status)
        },
        CapacityPhase::PollBusy(t) => match e {
            CapacityEvent::Value(st) => if st & STATUS_BSY != 0 {
                (r, status)
            } else {
                (capacity_in(r, CapacityPhase::PollCheck(t)), status)
            },
            _ => (r, status),
        },
        CapacityPhase::PollCheck(t) => match e {
            CapacityEvent::Value(st) => match sector_status(st) {
                Err(err) => (capacity_in(r, CapacityPhase::Failed(err)), CapacityAction::Finish(Err(err))),
                Ok(_) => if t == 0 {
                    (
                        capacity_in(r, CapacityPhase::PacketSent),
                        CapacityAction::SendPacket { port: ch.base, packet: r.packet },
                    )
                } else {
                    (capacity_in(r, CapacityPhase::Answering), CapacityAction::ReadAnswer { port: ch.base })
                },
            },
            _ => (r, status),
        },
        CapacityPhase::PacketSent => (capacity_in(r, CapacityPhase::PollAlt(1, 1)), alt),
        CapacityPhase::Answering => match e {
            CapacityEvent::Answer(last, size) => (capacity_in(r, CapacityPhase::Draining(last, size)), status),
            _ => (r, CapacityAction::ReadAnswer { port: ch.base }),
        },
        CapacityPhase::Draining(last, size) => match e {
            CapacityEvent::Value(st) => if st & (STATUS_BSY | STATUS_DRQ) != 0 {
                (r, status)
            } else {
                (
                    capacity_in(r, CapacityPhase::Done(capacity_of(last, size) as u32)),
                    CapacityAction::Finish(Ok(capacity_of(last, size) as u32)),
                )
            },
            _ => (r, status),
        },
        CapacityPhase::Done(c) => (r, CapacityAction::Finish(Ok(c))),
        CapacityPhase::Failed(err) => (r, CapacityAction::Finish(Err(err))),
    }
}

impl PacketCapacity {
    /// Starts asking drive `drive` (0 master, 1 slave) of `channel` its
    /// capacity with the packet of `ATAPI::capacity` from block 0: the
    /// channel's interrupts are turned on (`n_ien` 0, written to the
    /// control register).
    pub fn start(channel: IDEChannelRegisters, drive: u8) -> (res: (PacketCapacity, CapacityAction))
        ensures
            res.0.channel == (IDEChannelRegisters { n_ien: 0, ..channel }),
            res.0.drive == drive,
            res.0.packet == packet_with(ATAPI_CAPACITY, 0, 0),
            res.0.phase == CapacityPhase::Enabled,
            res.1 == (CapacityAction::Write { channel: res.0.channel, reg: REG_CONTROL, value: 0 }),
    {
        let ch = IDEChannelRegisters { n_ien: 0, ..channel };
        let packet = ATAPI::capacity(0);
        (PacketCapacity { channel: ch, drive, packet, phase: CapacityPhase::Enabled }, CapacityAction::Write {
            channel: ch,
            reg: REG_CONTROL,
            value: 0,
        })
    }

    /// One step of the capacity request (see `capacity_next`).
    pub fn step(self, e: CapacityEvent) -> (res: (PacketCapacity, CapacityAction))
        requires
            capacity_wf(self),
            capacity_event_ok(self, e),
        ensures
            res == capacity_next(self, e),
            capacity_wf(res.0),
    {
        let r = self;
        let ch = r.channel;
        let status = CapacityAction::Read { channel: ch, reg: REG_STATUS };
        let alt = CapacityAction::Read { channel: ch, reg: REG_ALTSTATUS };
        match r.phase {
            CapacityPhase::Enabled => (
                PacketCapacity { phase: CapacityPhase::Selected, ..r },
                CapacityAction::Write { channel: ch, reg: REG_HDDEVSEL, value: r.drive << 4 },
            ),
            CapacityPhase::Selected => (PacketCapacity { phase: CapacityPhase::SelectAlt(1), ..r }, alt),
            CapacityPhase::SelectAlt(n) => if n < 4 {
                (PacketCapacity { phase: CapacityPhase::SelectAlt(n + 1), ..r }, alt)
            } else {
                (
                    PacketCapacity { phase: CapacityPhase::Featured, ..r },
                    CapacityAction::Write { channel: ch, reg: REG_FEATURES, value: 0 },
                )
            },
            CapacityPhase::Featured => (
                PacketCapacity { phase: CapacityPhase::SizeLow, ..r },
                CapacityAction::Write { channel: ch, reg: REG_LBA1, value: 8 },
            ),
            CapacityPhase::SizeLow => (
                PacketCapacity { phase: CapacityPhase::SizeHigh, ..r },
                CapacityAction::Write { channel: ch, reg: REG_LBA2, value: 0 },
            ),
            CapacityPhase::SizeHigh => (
                PacketCapacity { phase: CapacityPhase::Commanded, ..r },
                CapacityAction::Write { channel: ch, reg: REG_COMMAND, value: 0xa0 },
            ),
            CapacityPhase::Commanded => (PacketCapacity { phase: CapacityPhase::PollAlt(0, 1), ..r }, alt),
            CapacityPhase::PollAlt(t, n) => if n < 4 {
                (PacketCapacity { phase: CapacityPhase::PollAlt(t, n + 1), ..r }, alt)
            } else {
                (PacketCapacity { phase: CapacityPhase::PollBusy(t), ..r }, status)
            },
            CapacityPhase::PollBusy(t) => match e {
                CapacityEvent::Value(st) => if st & STATUS_BSY != 0 {
                    (r, status)
                } else {
                    (PacketCapacity { phase: CapacityPhase::PollCheck(t), ..r }, status)
                },
                _ => (r, status),
            },
            CapacityPhase::PollCheck(t) => match e {
                CapacityEvent::Value(st) => {
                    let mut c = ch;
                    match c.polling(1, st) {
                        Err(err) => (
                            PacketCapacity { phase: CapacityPhase::Failed(err), ..r },
                            CapacityAction::Finish(Err(err)),
                        ),
                        Ok(_) => if t == 0 {
                            (
                                PacketCapacity { phase: CapacityPhase::PacketSent, ..r },
                                CapacityAction::SendPacket { port: ch.base, packet: r.packet },
                            )
                        } else {
                            (
                                PacketCapacity { phase: CapacityPhase::Answering, ..r },
                                CapacityAction::ReadAnswer { port: ch.base },
                            )
                        },
                    }
                },
                _ => (r, status),
            },
            CapacityPhase::PacketSent => (PacketCapacity { phase: CapacityPhase::PollAlt(1, 1), ..r }, alt),
            CapacityPhase::Answering => match e {
                CapacityEvent::Answer(last, size) => (
                    PacketCapacity { phase: CapacityPhase::Draining(last, size), ..r },
                    status,
                ),
                _ => (r, CapacityAction::ReadAnswer { port: ch.base }),
            },
            CapacityPhase::Draining(last, size) => match e {
                CapacityEvent::Value(st) => if st & (STATUS_BSY | STATUS_DRQ) != 0 {
                    (r, status)
                } else {
                    let c = ATAPI::capacity_size(last, size);
                    (PacketCapacity { phase: CapacityPhase::Done(c), ..r }, CapacityAction::Finish(Ok(c)))
                },
                _ => (r, status),
            },
            CapacityPhase::Done(c) => (r, CapacityAction::Finish(Ok(c))),
            CapacityPhase::Failed(err) => (r, CapacityAction::Finish(Err(err))),
        }
    }
}

} // verus!
