//! Carrying out a PIO transfer, one port access at a time: each step
//! decides, from what the last access gave, the next access to make.

use vstd::prelude::*;

use crate::pci::ide::ata::{AccessPlan, REG_ALTSTATUS, REG_COMMAND, REG_CONTROL, REG_STATUS, STATUS_BSY, STATUS_DF, STATUS_DRQ, STATUS_ERR};
use crate::pci::ide::channel::IDEChannelRegisters;

verus! {

/// What a transfer waits for.
#[derive(Debug, Clone, Copy, PartialEq, Eq, Structural)]
pub enum TransferPhase {
    /// The channel's interrupts are being turned off.
    Masked,
    /// The status, until the drive is no longer busy.
    WaitReady,
    /// The setup write before the one at this index of the plan.
    Setup(usize),
    /// The command is being sent.
    Commanded,
    /// The `n`-th of the four alternate status reads before sector `i`.
    Alt(u8, u8),
    /// The status before sector `i`, until the drive is no longer busy.
    Busy(u8),
    /// The status that tells whether sector `i` can be read.
    Check(u8),
    /// Sector `i` is being moved.
    Moved(u8),
    /// The cache flush command is being sent.
    Flushed,
    /// The `n`-th of the four alternate status reads after the flush.
    FlushAlt(u8),
    /// The status after the flush, until the drive is no longer busy.
    FlushBusy,
    /// The transfer is over.
    Done,
    /// The transfer stopped on this error.
    Failed(u8),
}

/// Where a transfer stands, and the channel as the transfer set it.
#[derive(Debug, Clone, Copy, PartialEq, Eq, Structural)]
pub struct TransferState {
    pub channel: IDEChannelRegisters,
    pub phase: TransferPhase,
}

/// The port access, or the end, that a transfer step asks for.
#[derive(Debug, Clone, Copy)]
pub enum TransferAction {
    /// Write `value` to register `reg` of `channel`.
    Write { channel: IDEChannelRegisters, reg: u8, value: u8 },
    /// Read register `reg` of `channel`.
    Read { channel: IDEChannelRegisters, reg: u8 },
    /// Read `words` 16-bit words from port `port` into memory at `edi`.
    MoveIn { port: u16, edi: u32, words: u32 },
    /// Write `words` 16-bit words from memory at `edi` to port `port`.
    MoveOut { port: u16, edi: u32, words: u32 },
    /// The transfer is over, with this outcome.
    Finish(Result<(), u8>),
}

/// What the last access gave.
#[derive(Debug, Clone, Copy, PartialEq, Eq, Structural)]
pub enum TransferEvent {
    /// A write or a move was made.
    Done,
    /// A register read gave this value.
    Value(u8),
}

/// A plan that a transfer can carry out: sectors of 256 words, a first
/// setup write, and the memory of every sector below 4 GiB.
pub open spec fn plan_ok(plan: AccessPlan) -> bool {
    &&& plan.words == 256
    &&& plan.writes@.len() >= 1
    &&& plan.edi + plan.sectors * 512 <= u32::MAX
}

/// The phase fits the plan.
pub open spec fn transfer_wf(plan: AccessPlan, s: TransferState) -> bool {
    match s.phase {
        TransferPhase::Setup(k) => 1 <= k <= plan.writes@.len(),
        TransferPhase::Alt(i, n) => i < plan.sectors && 1 <= n <= 4,
        TransferPhase::Busy(i) => i < plan.sectors,
        TransferPhase::Check(i) => i < plan.sectors,
        TransferPhase::Moved(i) => i < plan.sectors,
        TransferPhase::FlushAlt(n) => 1 <= n <= 4,
        _ => true,
    }
}

/// The memory address of sector `i`.
pub open spec fn sector_edi(plan: AccessPlan, i: int) -> u32 {
    (plan.edi + i * 512) as u32
}

/// The first of the four alternate status reads before sector `i`.
pub open spec fn poll_sector(s: TransferState, i: u8) -> (TransferState, TransferAction) {
    (
        TransferState { phase: TransferPhase::Alt(i, 1), ..s },
        TransferAction::Read { channel: s.channel, reg: REG_ALTSTATUS },
    )
}

/// What follows the sectors: the end of a read, or the cache flush of a
/// write.
pub open spec fn after_sectors(plan: AccessPlan, s: TransferState) -> (TransferState, TransferAction) {
    match plan.flush {
        None => (TransferState { phase: TransferPhase::Done, ..s }, TransferAction::Finish(Ok(()))),
        Some(f) => (
            TransferState { phase: TransferPhase::Flushed, ..s },
            TransferAction::Write { channel: s.channel, reg: REG_COMMAND, value: f },
        ),
    }
}

/// The outcome of the status `st` read before a sector of a read: an
/// error gives 2, a drive fault 1, no data request 3.
pub open spec fn sector_status(st: u8) -> Result<(), u8> {
    if st & STATUS_ERR != 0 {
        Err(2)
    } else if st & STATUS_DF != 0 {
        Err(1)
    } else if st & STATUS_DRQ == 0 {
        Err(3)
    } else {
        Ok(())
    }
}

/// The move of sector `i`.
pub open spec fn move_sector(plan: AccessPlan, s: TransferState, i: u8) -> (TransferState, TransferAction) {
    let edi = sector_edi(plan, i as int);
    (
        TransferState { phase: TransferPhase::Moved(i), ..s },
        if plan.flush is None {
            TransferAction::MoveIn { port: plan.bus, edi, words: plan.words }
        } else {
            TransferAction::MoveOut { port: plan.bus, edi, words: plan.words }
        },
    )
}

/// The step of a transfer from `s` on event `e`: the setup writes and the
/// command in order once the drive is no longer busy, then for each sector
/// four alternate status reads, a wait while busy and, for a read, a check
/// of the status before the sector is moved; a write ends with the cache
/// flush and the same wait.
pub open spec fn transfer_next(plan: AccessPlan, s: TransferState, e: TransferEvent) -> (TransferState, TransferAction) {
    let ch = s.channel;
    let same = TransferAction::Read { channel: ch, reg: REG_STATUS };
    match s.phase {
        TransferPhase::Masked => (
            TransferState { phase: TransferPhase::WaitReady, ..s },
            TransferAction::Read { channel: ch, reg: REG_STATUS },
        ),
        TransferPhase::WaitReady => match e {
            TransferEvent::Value(st) => if st & STATUS_BSY != 0 {
                (s, same)
            } else {
                (
                    TransferState { phase: TransferPhase::Setup(1), ..s },
                    TransferAction::Write { channel: ch, reg: plan.writes@[0].reg, value: plan.writes@[0].value },
                )
            },
            _ => (s, same),
        },
        TransferPhase::Setup(k) => if k < plan.writes@.len() {
            (
                TransferState { phase: TransferPhase::Setup((k + 1) as usize), ..s },
                TransferAction::Write { channel: ch, reg: plan.writes@[k as int].reg, value: plan.writes@[k as int].value },
            )
        } else {
            (
                TransferState { phase: TransferPhase::Commanded, ..s },
                TransferAction::Write { channel: ch, reg: REG_COMMAND, value: plan.command },
            )
        },
        TransferPhase::Commanded => if plan.sectors > 0 {
            poll_sector(s, 0)
        } else {
            after_sectors(plan, s)
        },
        TransferPhase::Alt(i, n) => if n < 4 {
            (
                TransferState { phase: TransferPhase::Alt(i, (n + 1) as u8), ..s },
                TransferAction::Read { channel: ch, reg: REG_ALTSTATUS },
            )
        } else {
            (TransferState { phase: TransferPhase::Busy(i), ..s }, same)
        },
        TransferPhase::Busy(i) => match e {
            TransferEvent::Value(st) => if st & STATUS_BSY != 0 {
                (s, same)
            } else if plan.flush is None {
                (TransferState { phase: TransferPhase::Check(i), ..s }, same)
            } else {
                move_sector(plan, s, i)
            },
            _ => (s, same),
        },
        TransferPhase::Check(i) => match e {
            TransferEvent::Value(st) => match sector_status(st) {
                Ok(_) => move_sector(plan, s, i),
                Err(err) => (TransferState { phase: TransferPhase::Failed(err), ..s }, TransferAction::Finish(Err(err))),
            },
            _ => (s, same),
        },
        TransferPhase::Moved(i) => if i + 1 < plan.sectors {
            poll_sector(s, (i + 1) as u8)
        } else {
            after_sectors(plan, s)
        },
        TransferPhase::Flushed => (
            TransferState { phase: TransferPhase::FlushAlt(1), ..s },
            TransferAction::Read { channel: ch, reg: REG_ALTSTATUS },
        ),
        TransferPhase::FlushAlt(n) => if n < 4 {
            (
                TransferState { phase: TransferPhase::FlushAlt((n + 1) as u8), ..s },
                TransferAction::Read { channel: ch, reg: REG_ALTSTATUS },
            )
        } else {
            (TransferState { phase: TransferPhase::FlushBusy, ..s }, same)
        },
        TransferPhase::FlushBusy => match e {
            TransferEvent::Value(st) => if st & STATUS_BSY != 0 {
                (s, same)
            } else {
                (TransferState { phase: TransferPhase::Done, ..s }, TransferAction::Finish(Ok(())))
            },
            _ => (s, same),
        },
        TransferPhase::Done => (s, TransferAction::Finish(Ok(()))),
        TransferPhase::Failed(err) => (s, TransferAction::Finish(Err(err))),
    }
}

fn first_poll(s: TransferState, i: u8) -> (res: (TransferState, TransferAction))
    ensures
        res == poll_sector(s, i),
{
    (TransferState { phase: TransferPhase::Alt(i, 1), ..s }, TransferAction::Read { channel: s.channel, reg: REG_ALTSTATUS })
}

fn end_sectors(plan: &AccessPlan, s: TransferState) -> (res: (TransferState, TransferAction))
    ensures
        res == after_sectors(*plan, s),
{
    match plan.flush {
        None => (TransferState { phase: TransferPhase::Done, ..s }, TransferAction::Finish(Ok(()))),
        Some(f) => (
            TransferState { phase: TransferPhase::Flushed, ..s },
            TransferAction::Write { channel: s.channel, reg: REG_COMMAND, value: f },
        ),
    }
}

fn move_of(plan: &AccessPlan, s: TransferState, i: u8) -> (res: (TransferState, TransferAction))
    requires
        plan_ok(*plan),
        i < plan.sectors,
    ensures
        res == move_sector(*plan, s, i),
{
    let edi = plan.edi + (i as u32) * 512;
    let action = match plan.flush {
        None => TransferAction::MoveIn { port: plan.bus, edi, words: plan.words },
        Some(_) => TransferAction::MoveOut { port: plan.bus, edi, words: plan.words },
    };
    (TransferState { phase: TransferPhase::Moved(i), ..s }, action)
}

impl AccessPlan {
    /// Starts carrying out the plan on `channel`: the channel's interrupts
    /// are turned off (`n_ien` 2, written to the control register).
    pub fn start(&self, channel: IDEChannelRegisters) -> (res: (TransferState, TransferAction))
        ensures
            res.0 == (TransferState { channel: IDEChannelRegisters { n_ien: 2, ..channel }, phase: TransferPhase::Masked }),
            res.1 == (TransferAction::Write { channel: res.0.channel, reg: REG_CONTROL, value: 2 }),
    {
        let ch = IDEChannelRegisters { n_ien: 2, ..channel };
        (TransferState { channel: ch, phase: TransferPhase::Masked }, TransferAction::Write { channel: ch, reg: REG_CONTROL, value: 2 })
    }

    /// One step of the transfer (see `transfer_next`).
    pub fn step(&self, s: TransferState, e: TransferEvent) -> (res: (TransferState, TransferAction))
        requires
            plan_ok(*self),
            transfer_wf(*self, s),
        ensures
            res == transfer_next(*self, s, e),
            transfer_wf(*self, res.0),
    {
        let ch = s.channel;
        let same = TransferAction::Read { channel: ch, reg: REG_STATUS };
        match s.phase {
            TransferPhase::Masked => (
                TransferState { phase: TransferPhase::WaitReady, ..s },
                TransferAction::Read { channel: ch, reg: REG_STATUS },
            ),
            TransferPhase::WaitReady => match e {
                TransferEvent::Value(st) => if st & STATUS_BSY != 0 {
                    (s, same)
                } else {
                    let w = self.writes[0];
                    (TransferState { phase: TransferPhase::Setup(1), ..s }, TransferAction::Write { channel: ch, reg: w.reg, value: w.value })
                },
                _ => (s, same),
            },
            TransferPhase::Setup(k) => if k < self.writes.len() {
                let w = self.writes[k];
                (TransferState { phase: TransferPhase::Setup(k + 1), ..s }, TransferAction::Write { channel: ch, reg: w.reg, value: w.value })
            } else {
                (
                    TransferState { phase: TransferPhase::Commanded, ..s },
                    TransferAction::Write { channel: ch, reg: REG_COMMAND, value: self.command },
                )
            },
            TransferPhase::Commanded => if self.sectors > 0 {
                first_poll(s, 0)
            } else {
                end_sectors(self, s)
            },
            TransferPhase::Alt(i, n) => if n < 4 {
                (TransferState { phase: TransferPhase::Alt(i, n + 1), ..s }, TransferAction::Read { channel: ch, reg: REG_ALTSTATUS })
            } else {
                (TransferState { phase: TransferPhase::Busy(i), ..s }, same)
            },
            TransferPhase::Busy(i) => match e {
                TransferEvent::Value(st) => if st & STATUS_BSY != 0 {
                    (s, same)
                } else if self.flush.is_none() {
                    (TransferState { phase: TransferPhase::Check(i), ..s }, same)
                } else {
                    move_of(self, s, i)
                },
                _ => (s, same),
            },
            TransferPhase::Check(i) => match e {
                TransferEvent::Value(st) => {
                    let mut c = ch;
                    match c.polling(1, st) {
                        Ok(_) => move_of(self, s, i),
                        Err(err) => (TransferState { phase: TransferPhase::Failed(err), ..s }, TransferAction::Finish(Err(err))),
                    }
                },
                _ => (s, same),
            },
            TransferPhase::Moved(i) => if i + 1 < self.sectors {
                first_poll(s, i + 1)
            } else {
                end_sectors(self, s)
            },
            TransferPhase::Flushed => (
                TransferState { phase: TransferPhase::FlushAlt(1), ..s },
                TransferAction::Read { channel: ch, reg: REG_ALTSTATUS },
            ),
            TransferPhase::FlushAlt(n) => if n < 4 {
                (TransferState { phase: TransferPhase::FlushAlt(n + 1), ..s }, TransferAction::Read { channel: ch, reg: REG_ALTSTATUS })
            } else {
                (TransferState { phase: TransferPhase::FlushBusy, ..s }, same)
            },
            TransferPhase::FlushBusy => match e {
                TransferEvent::Value(st) => if st & STATUS_BSY != 0 {
                    (s, same)
                } else {
                    (TransferState { phase: TransferPhase::Done, ..s }, TransferAction::Finish(Ok(())))
                },
                _ => (s, same),
            },
            TransferPhase::Done => (s, TransferAction::Finish(Ok(()))),
            TransferPhase::Failed(err) => (s, TransferAction::Finish(Err(err))),
        }
    }
}

} // verus!
