//! Ejecting the medium of an ATAPI drive, one port access at a time.

use vstd::prelude::*;

use crate::pci::ide::ata::{REG_ALTSTATUS, REG_COMMAND, REG_CONTROL, REG_HDDEVSEL, REG_STATUS, STATUS_BSY};
use crate::pci::ide::atapi::ATAPI;
use crate::pci::ide::channel::IDEChannelRegisters;
use crate::pci::ide::transfer::sector_status;

verus! {

/// What an eject waits for. A polling step's target is 0 before the
/// packet and 1 after it.
#[derive(Debug, Clone, Copy, PartialEq, Eq, Structural)]
pub enum EjectPhase {
    /// The interrupts of the channel are being turned on.
    Enabled,
    /// The drive is being selected.
    Selected,
    /// The `n`-th of the four alternate status reads after the selection.
    SelectAlt(u8),
    /// The packet command is being sent.
    Commanded,
    /// The `n`-th of the four alternate status reads of a polling.
    PollAlt(u8, u8),
    /// The status of a polling, until the drive is no longer busy.
    PollBusy(u8),
    /// The status that tells whether the polling succeeded.
    PollCheck(u8),
    /// The packet is being sent.
    PacketSent,
    /// The interrupt after the packet.
    Irq,
    /// The eject is over.
    Done,
    /// The eject stopped on this error.
    Failed(u8),
}

/// An eject on drive `drive` of `channel` with packet `packet`, and where
/// it stands.
#[derive(Debug, Clone, Copy)]
pub struct PacketEject {
    pub channel: IDEChannelRegisters,
    pub drive: u8,
    pub packet: [u8; 12],
    pub phase: EjectPhase,
}

/// The port access, or the end, that an eject step asks for.
#[derive(Debug, Clone, Copy)]
pub enum EjectAction {
    /// Write `value` to register `reg` of `channel`.
    Write { channel: IDEChannelRegisters, reg: u8, value: u8 },
    /// Read register `reg` of `channel`.
    Read { channel: IDEChannelRegisters, reg: u8 },
    /// Write the packet to port `port`, as six 16-bit words.
    SendPacket { port: u16, packet: [u8; 12] },
    /// Wait for the drive's interrupt.
    WaitIrq,
    /// The eject is over, with this outcome.
    Finish(Result<(), u8>),
}

/// What the last access gave.
#[derive(Debug, Clone, Copy, PartialEq, Eq, Structural)]
pub enum EjectEvent {
    /// A write or the wait for an interrupt was made.
    Done,
    /// A register read gave this value.
    Value(u8),
}

/// The phase's counters are in range.
pub open spec fn eject_wf(r: PacketEject) -> bool {
    match r.phase {
        EjectPhase::SelectAlt(n) => 1 <= n <= 4,
        EjectPhase::PollAlt(t, n) => t <= 1 && 1 <= n <= 4,
        EjectPhase::PollBusy(t) => t <= 1,
        EjectPhase::PollCheck(t) => t <= 1,
        _ => true,
    }
}

/// The same eject in phase `p`.
pub open spec fn eject_in(r: PacketEject, p: EjectPhase) -> PacketEject {
    PacketEject { phase: p, ..r }
}

/// The step of an eject from `r` on event `e`: the drive is selected, the
/// packet command sent and, after a polling, the packet; after the
/// interrupt a last polling ends the eject, where no data to read (3) is
/// no error.
pub open spec fn eject_next(r: PacketEject, e: EjectEvent) -> (PacketEject, EjectAction) {
    let ch = r.channel;
    let status = EjectAction::Read { channel: ch, reg: REG_STATUS };
    let alt = EjectAction::Read { channel: ch, reg: REG_ALTSTATUS };
    match r.phase {
        EjectPhase::Enabled => (
            eject_in(r, EjectPhase::Selected),
            EjectAction::Write { channel: ch, reg: REG_HDDEVSEL, value: (r.drive << 4u8) as u8 },
        ),
        EjectPhase::Selected => (eject_in(r, EjectPhase::SelectAlt(1)), alt),
        EjectPhase::SelectAlt(n) => if n < 4 {
            (eject_in(r, EjectPhase::SelectAlt((n + 1) as u8)), alt)
        } else {
            (eject_in(r, EjectPhase::Commanded), EjectAction::Write { channel: ch, reg: REG_COMMAND, value: 0xa0 })
        },
        EjectPhase::Commanded => (eject_in(r, EjectPhase::PollAlt(0, 1)), alt),
        EjectPhase::PollAlt(t, n) => if n < 4 {
            (eject_in(r, EjectPhase::PollAlt(t, (n + 1) as u8)), alt)
        } else {
            (eject_in(r, EjectPhase::PollBusy(t)), status)
        },
        EjectPhase::PollBusy(t) => match e {
            EjectEvent::Value(st) => if st & STATUS_BSY != 0 {
                (r, status)
            } else {
                (eject_in(r, EjectPhase::PollCheck(t)), status)
            },
            _ => (r, status),
        },
        EjectPhase::PollCheck(t) => match e {
            EjectEvent::Value(st) => if t == 0 {
                match sector_status(st) {
                    Err(err) => (eject_in(r, EjectPhase::Failed(err)), EjectAction::Finish(Err(err))),
                    Ok(_) => (eject_in(r, EjectPhase::PacketSent), EjectAction::SendPacket { port: ch.base, packet: r.packet }),
                }
            } else {
                match sector_status(st) {
                    Err(err) => if err != 3 {
                        (eject_in(r, EjectPhase::Failed(err)), EjectAction::Finish(Err(err)))
                    } else {
                        (eject_in(r, EjectPhase::Done), EjectAction::Finish(Ok(())))
                    },
                    Ok(_) => (eject_in(r, EjectPhase::Done), EjectAction::Finish(Ok(()))),
                }
            },
            _ => (r, status),
        },
        EjectPhase::PacketSent => (eject_in(r, EjectPhase::Irq), EjectAction::WaitIrq),
        EjectPhase::Irq => (eject_in(r, EjectPhase::PollAlt(1, 1)), alt),
        EjectPhase::Done => (r, EjectAction::Finish(Ok(()))),
        EjectPhase::Failed(err) => (r, EjectAction::Finish(Err(err))),
    }
}

impl PacketEject {
    /// Starts ejecting the medium of drive `drive` (0 master, 1 slave) on
    /// `channel` with `packet` (as `ATAPI::eject` gives it): the channel's
    /// interrupts are turned on (`n_ien` 0, written to the control
    /// register).
    pub fn start(channel: IDEChannelRegisters, drive: u8, packet: [u8; 12]) -> (res: (PacketEject, EjectAction))
        ensures
            res.0 == (PacketEject {
                channel: IDEChannelRegisters { n_ien: 0, ..channel },
                drive,
                packet,
                phase: EjectPhase::Enabled,
            }),
            res.1 == (EjectAction::Write { channel: res.0.channel, reg: REG_CONTROL, value: 0 }),
    {
        let ch = IDEChannelRegisters { n_ien: 0, ..channel };
        (PacketEject { channel: ch, drive, packet, phase: EjectPhase::Enabled }, EjectAction::Write {
            channel: ch,
            reg: REG_CONTROL,
            value: 0,
        })
    }

    /// One step of the eject (see `eject_next`).
    pub fn step(self, e: EjectEvent) -> (res: (PacketEject, EjectAction))
        requires
            eject_wf(self),
        ensures
            res == eject_next(self, e),
            eject_wf(res.0),
    {
        let r = self;
        let ch = r.channel;
        let status = EjectAction::Read { channel: ch, reg: REG_STATUS };
        let alt = EjectAction::Read { channel: ch, reg: REG_ALTSTATUS };
        match r.phase {
            EjectPhase::Enabled => (
                PacketEject { phase: EjectPhase::Selected, ..r },
                EjectAction::Write { channel: ch, reg: REG_HDDEVSEL, value: r.drive << 4 },
            ),
            EjectPhase::Selected => (PacketEject { phase: EjectPhase::SelectAlt(1), ..r }, alt),
            EjectPhase::SelectAlt(n) => if n < 4 {
                (PacketEject { phase: EjectPhase::SelectAlt(n + 1), ..r }, alt)
            } else {
                (PacketEject { phase: EjectPhase::Commanded, ..r }, EjectAction::Write { channel: ch, reg: REG_COMMAND, value: 0xa0 })
            },
            EjectPhase::Commanded => (PacketEject { phase: EjectPhase::PollAlt(0, 1), ..r }, alt),
            EjectPhase::PollAlt(t, n) => if n < 4 {
                (PacketEject { phase: EjectPhase::PollAlt(t, n + 1), ..r }, alt)
            } else {
                (PacketEject { phase: EjectPhase::PollBusy(t), ..r }, status)
            },
            EjectPhase::PollBusy(t) => match e {
                EjectEvent::Value(st) => if st & STATUS_BSY != 0 {
                    (r, status)
                } else {
                    (PacketEject { phase: EjectPhase::PollCheck(t), ..r }, status)
                },
                _ => (r, status),
            },
            EjectPhase::PollCheck(t) => match e {
                EjectEvent::Value(st) => {
                    let mut c = ch;
                    let polled = c.polling(1, st);
                    if t == 0 {
                        match polled {
                            Err(err) => (PacketEject { phase: EjectPhase::Failed(err), ..r }, EjectAction::Finish(Err(err))),
                            Ok(_) => (PacketEject { phase: EjectPhase::PacketSent, ..r }, EjectAction::SendPacket {
                                port: ch.base,
                                packet: r.packet,
                            }),
                        }
                    } else {
                        match ATAPI::eject_result(polled) {
                            Err(err) => (PacketEject { phase: EjectPhase::Failed(err), ..r }, EjectAction::Finish(Err(err))),
                            Ok(_) => (PacketEject { phase: EjectPhase::Done, ..r }, EjectAction::Finish(Ok(()))),
                        }
                    }
                },
                _ => (r, status),
            },
            EjectPhase::PacketSent => (PacketEject { phase: EjectPhase::Irq, ..r }, EjectAction::WaitIrq),
            EjectPhase::Irq => (PacketEject { phase: EjectPhase::PollAlt(1, 1), ..r }, alt),
            EjectPhase::Done => (r, EjectAction::Finish(Ok(()))),
            EjectPhase::Failed(err) => (r, EjectAction::Finish(Err(err))),
        }
    }
}

} // verus!
