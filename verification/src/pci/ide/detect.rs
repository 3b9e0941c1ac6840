//! Detecting the drives of the controller, one port access at a time: the
//! decisions of each step, from what the last access gave to the next
//! access to make.

use vstd::prelude::*;

use crate::pci::ide::ata::{
    ATAChannel, ATACommand, REG_COMMAND, REG_CONTROL, REG_HDDEVSEL, REG_LBA1, REG_LBA2, REG_STATUS, STATUS_BSY, STATUS_DRQ,
    STATUS_ERR,
};
use crate::pci::ide::channel::IDEChannelRegisters;
use crate::pci::ide::device::{identity_fields, lemma_model_from, model_bytes, model_from, IDEDevice};
use crate::pci::ide::{bar_port, channels_of, identify_step, probe_kind, IDEController, IdentifyStep};

verus! {

/// What detection waits for.
#[derive(Debug, Clone, Copy, PartialEq, Eq, Structural)]
pub enum DetectPhase {
    /// The interrupts of the primary channel are being turned off.
    MaskPrimary,
    /// The interrupts of the secondary channel are being turned off.
    MaskSecondary,
    /// The drive is being selected.
    Selected,
    /// The pause after the selection.
    SelectSlept,
    /// The identify command is being sent.
    IdentifySent,
    /// The pause after the identify command.
    IdentifySlept,
    /// The first status after the identify command.
    FirstStatus,
    /// The status, until the drive is ready or reports an error.
    Polling,
    /// The first signature byte of a drive that refused to identify.
    ProbeLow,
    /// The second signature byte, after the first one.
    ProbeHigh(u8),
    /// The packet identify command is being sent.
    PacketSent,
    /// The pause after the packet identify command.
    PacketSlept,
    /// The identification space of the drive.
    Identity,
    /// The capacity of an ATAPI drive.
    Capacity,
    /// Detection is over.
    Done,
    /// Detection stopped on the error of an ATAPI capacity request.
    Failed(u8),
}

/// Where detection stands: on drive `drive` of channel `channel` (0 the
/// primary one, 1 the secondary one), with `count` drives found before it
/// and `kind` the kind of the drive at hand; `model` is the model of an
/// ATAPI drive whose capacity is asked, which goes into its slot with the
/// capacity.
#[derive(Debug, Clone, Copy)]
pub struct Detection {
    pub primary: IDEChannelRegisters,
    pub secondary: IDEChannelRegisters,
    pub channel: u8,
    pub drive: u8,
    pub count: usize,
    pub kind: u16,
    pub phase: DetectPhase,
    pub model: [u8; 41],
}

/// The port access, or the end, that a detection step asks for.
#[derive(Debug, Clone, Copy)]
pub enum DetectAction {
    /// Write `data` to register `reg` of `channel`.
    Write { channel: IDEChannelRegisters, reg: u8, data: u8 },
    /// Pause for a millisecond.
    Sleep,
    /// Read register `reg` of `channel`.
    Read { channel: IDEChannelRegisters, reg: u8 },
    /// Read the 512 bytes of identification space from the data register
    /// of `channel`.
    ReadIdentity { channel: IDEChannelRegisters },
    /// Ask the ATAPI drive `drive` of `channel` its capacity: the drive just
    /// identified, whose size is being filled.
    AskCapacity { channel: IDEChannelRegisters, drive: u8 },
    /// Detection is over, with this outcome.
    Finish(Result<(), u8>),
}

/// What the last access gave.
#[derive(Debug)]
pub enum DetectEvent {
    /// A write or a pause was made.
    Done,
    /// A register read gave this value.
    Value(u8),
    /// The identification space that was read.
    Identity(std::vec::Vec<u8>),
    /// The answer to a capacity request: the size in sectors, or an error.
    Capacity(Result<u32, u8>),
}

/// The channel that detection is on.
pub open spec fn current(d: Detection) -> IDEChannelRegisters {
    if d.channel == 0 {
        d.primary
    } else {
        d.secondary
    }
}

/// The drive at hand is the `2 * channel + drive`-th one; the drives found
/// are among those before it, or among all four once detection is done.
pub open spec fn detection_wf(d: Detection) -> bool {
    &&& d.channel < 2
    &&& d.drive < 2
    &&& d.count <= 2 * d.channel + d.drive + if d.phase == DetectPhase::Done { 1int } else { 0int }
    &&& d.kind <= 1
}

/// The event is the answer to the access the phase waits for.
pub open spec fn event_fits(phase: DetectPhase, e: DetectEvent) -> bool {
    match phase {
        DetectPhase::FirstStatus | DetectPhase::Polling | DetectPhase::ProbeLow | DetectPhase::ProbeHigh(_) => e is Value,
        DetectPhase::Identity => e matches DetectEvent::Identity(buf) && buf@.len() >= 512,
        DetectPhase::Capacity => e is Capacity,
        DetectPhase::Done | DetectPhase::Failed(_) => true,
        _ => e is Done,
    }
}

/// The selection of drive `drive` of channel `channel`, `count` drives
/// having been found.
pub open spec fn select(d: Detection, channel: u8, drive: u8, count: usize) -> (Detection, DetectAction) {
    let nd = Detection { channel, drive, count, kind: 0, phase: DetectPhase::Selected, ..d };
    (nd, DetectAction::Write { channel: current(nd), reg: REG_HDDEVSEL, data: 0xa0 | (drive << 4u8) })
}

/// What follows the drive at hand, `count` drives having been found: the
/// next drive of the channel, or the first of the next channel, or the end
/// after the second drive of the secondary channel.
pub open spec fn after_drive(d: Detection, count: usize) -> (Detection, DetectAction) {
    if d.drive == 0 {
        select(d, d.channel, 1, count)
    } else if d.channel == 0 {
        select(d, 1, 0, count)
    } else {
        (Detection { count, phase: DetectPhase::Done, ..d }, DetectAction::Finish(Ok(())))
    }
}

/// The same detection in phase `phase`.
pub open spec fn in_phase(d: Detection, phase: DetectPhase) -> Detection {
    Detection { phase, ..d }
}

/// The step of detection from `d` on event `e`.
pub open spec fn detect_next(d: Detection, e: DetectEvent) -> (Detection, DetectAction) {
    let ch = current(d);
    match d.phase {
        DetectPhase::MaskPrimary => (
            in_phase(d, DetectPhase::MaskSecondary),
            DetectAction::Write { channel: d.secondary, reg: REG_CONTROL, data: 2 },
        ),
        DetectPhase::MaskSecondary => select(d, 0, 0, 0),
        DetectPhase::Selected => (in_phase(d, DetectPhase::SelectSlept), DetectAction::Sleep),
        DetectPhase::SelectSlept => (
            in_phase(d, DetectPhase::IdentifySent),
            DetectAction::Write { channel: ch, reg: REG_COMMAND, data: 0xec },
        ),
        DetectPhase::IdentifySent => (in_phase(d, DetectPhase::IdentifySlept), DetectAction::Sleep),
        DetectPhase::IdentifySlept => (
            in_phase(d, DetectPhase::FirstStatus),
            DetectAction::Read { channel: ch, reg: REG_STATUS },
        ),
        DetectPhase::FirstStatus => match e {
            DetectEvent::Value(0) => after_drive(d, d.count),
            _ => (in_phase(d, DetectPhase::Polling), DetectAction::Read { channel: ch, reg: REG_STATUS }),
        },
        DetectPhase::Polling => match e {
            DetectEvent::Value(st) => if st & STATUS_ERR != 0 {
                (in_phase(d, DetectPhase::ProbeLow), DetectAction::Read { channel: ch, reg: REG_LBA1 })
            } else if st & STATUS_BSY == 0 && st & STATUS_DRQ != 0 {
                (
                    Detection { kind: 0, phase: DetectPhase::Identity, ..d },
                    DetectAction::ReadIdentity { channel: ch },
                )
            } else {
                (d, DetectAction::Read { channel: ch, reg: REG_STATUS })
            },
            _ => (d, DetectAction::Finish(Ok(()))),
        },
        DetectPhase::ProbeLow => match e {
            DetectEvent::Value(cl) => (
                in_phase(d, DetectPhase::ProbeHigh(cl)),
                DetectAction::Read { channel: ch, reg: REG_LBA2 },
            ),
            _ => (d, DetectAction::Finish(Ok(()))),
        },
        DetectPhase::ProbeHigh(cl) => match e {
            DetectEvent::Value(chb) => if (cl == 0x14 && chb == 0xeb) || (cl == 0x69 && chb == 0x96) {
                (
                    Detection { kind: 1, phase: DetectPhase::PacketSent, ..d },
                    DetectAction::Write { channel: ch, reg: REG_COMMAND, data: 0xa1 },
                )
            } else {
                after_drive(d, d.count)
            },
            _ => (d, DetectAction::Finish(Ok(()))),
        },
        DetectPhase::PacketSent => (in_phase(d, DetectPhase::PacketSlept), DetectAction::Sleep),
        DetectPhase::PacketSlept => (in_phase(d, DetectPhase::Identity), DetectAction::ReadIdentity { channel: ch }),
        DetectPhase::Identity => if d.kind == 0 {
            after_drive(d, (d.count + 1) as usize)
        } else {
            let model = match e {
                DetectEvent::Identity(buf) => model_from(buf@),
                _ => d.model,
            };
            (
                Detection { phase: DetectPhase::Capacity, model, ..d },
                DetectAction::AskCapacity { channel: ch, drive: d.drive },
            )
        },
        DetectPhase::Capacity => match e {
            DetectEvent::Capacity(Ok(_)) => after_drive(d, (d.count + 1) as usize),
            DetectEvent::Capacity(Err(err)) => (in_phase(d, DetectPhase::Failed(err)), DetectAction::Finish(Err(err))),
            _ => (d, DetectAction::Finish(Ok(()))),
        },
        DetectPhase::Done => (d, DetectAction::Finish(Ok(()))),
        DetectPhase::Failed(err) => (d, DetectAction::Finish(Err(err))),
    }
}

/// The devices found so far are marked present, and so is the ATAPI
/// drive whose capacity is asked.
pub open spec fn found_reserved(devices: Seq<IDEDevice>, d: Detection) -> bool {
    &&& forall|k: int| 0 <= k < d.count ==> (#[trigger] devices[k]).reserved == 1
    &&& d.phase == DetectPhase::Capacity ==> devices[d.count as int].reserved == 1
}

fn select_drive(d: Detection, channel: u8, drive: u8, count: usize) -> (res: (Detection, DetectAction))
    requires
        channel < 2,
    ensures
        res == select(d, channel, drive, count),
{
    let nd = Detection { channel, drive, count, kind: 0, phase: DetectPhase::Selected, ..d };
    let ch = if channel == 0 {
        nd.primary
    } else {
        nd.secondary
    };
    (nd, DetectAction::Write { channel: ch, reg: REG_HDDEVSEL, data: 0xa0 | (drive << 4u8) })
}

fn next_drive(d: Detection, count: usize) -> (res: (Detection, DetectAction))
    requires
        d.channel < 2,
    ensures
        res == after_drive(d, count),
{
    if d.drive == 0 {
        select_drive(d, d.channel, 1, count)
    } else if d.channel == 0 {
        select_drive(d, 1, 0, count)
    } else {
        (Detection { count, phase: DetectPhase::Done, ..d }, DetectAction::Finish(Ok(())))
    }
}

impl IDEController {
    /// Starts detecting the drives of the controller whose base address
    /// registers are `bar0` to `bar4`, as `channels_of` finds them: the first step
    /// turns off the interrupts of the primary channel. The drives already
    /// known stay until detection replaces them.
    pub fn initialize(&mut self, bar0: u32, bar1: u32, bar2: u32, bar3: u32, bar4: u32) -> (res: (
        Detection,
        DetectAction,
    ))
        requires
            (bar4 & 0xffff_fffc) + 8 <= u32::MAX,
        ensures
            final(self).devices@ == old(self).devices@,
            res.0.primary == (IDEChannelRegisters {
                kind: ATAChannel::Primary,
                base: bar_port(bar0, 0),
                ctrl: bar_port(bar1, 0),
                bmide: bar_port(bar4, 0),
                n_ien: 0,
            }),
            res.0.secondary == (IDEChannelRegisters {
                kind: ATAChannel::Secondary,
                base: bar_port(bar2, 0),
                ctrl: bar_port(bar3, 0),
                bmide: bar_port(bar4, 8),
                n_ien: 0,
            }),
            res.0.channel == 0,
            res.0.drive == 0,
            res.0.count == 0,
            res.0.kind == 0,
            res.0.phase == DetectPhase::MaskPrimary,
            res.1 == (DetectAction::Write { channel: res.0.primary, reg: REG_CONTROL, data: 2 }),
    {
        let (primary, secondary) = channels_of(bar0, bar1, bar2, bar3, bar4);
        let d = Detection {
            primary,
            secondary,
            channel: 0,
            drive: 0,
            count: 0,
            kind: 0,
            phase: DetectPhase::MaskPrimary,
            model: [0; 41],
        };
        (d, DetectAction::Write { channel: primary, reg: REG_CONTROL, data: 2 })
    }

    /// One step of detection: from where it stands and what the last access
    /// gave, the next state and the next access (see `detect_next`). The
    /// identification space of a drive fills the next free slot of the
    /// controller; an ATAPI drive's model goes there with its capacity, and
    /// a failed capacity request leaves the slot's model as it was.
    pub fn detect_step(&mut self, d: Detection, e: DetectEvent) -> (res: (Detection, DetectAction))
        requires
            detection_wf(d),
            event_fits(d.phase, e),
        ensures
            res == detect_next(d, e),
            detection_wf(res.0),
            found_reserved(old(self).devices@, d) ==> found_reserved(final(self).devices@, res.0),
            d.phase == DetectPhase::Identity ==> (e matches DetectEvent::Identity(buf) && identity_fields(
                final(self).devices@[d.count as int],
                d.kind,
                current(d),
                d.drive,
                buf@,
            ) && (d.kind == 0 ==> model_bytes(final(self).devices@[d.count as int].model@, buf@)) && (d.kind != 0
                ==> final(self).devices@[d.count as int].model == old(self).devices@[d.count as int].model)
                && final(self).devices@ == old(self).devices@.update(
                d.count as int,
                final(self).devices@[d.count as int],
            )),
            d.phase == DetectPhase::Capacity ==> (e matches DetectEvent::Capacity(Ok(size)) ==> final(self).devices@
                == old(self).devices@.update(
                d.count as int,
                IDEDevice { size, model: d.model, ..old(self).devices@[d.count as int] },
            )),
            d.phase == DetectPhase::Capacity ==> (e matches DetectEvent::Capacity(Err(_)) ==> final(self).devices@
                == old(self).devices@),
            d.phase != DetectPhase::Identity && d.phase != DetectPhase::Capacity ==> final(self).devices@
                == old(self).devices@,
    {
        let ch = if d.channel == 0 {
            d.primary
        } else {
            d.secondary
        };
        match d.phase {
            DetectPhase::MaskPrimary => (
                Detection { phase: DetectPhase::MaskSecondary, ..d },
                DetectAction::Write { channel: d.secondary, reg: REG_CONTROL, data: 2 },
            ),
            DetectPhase::MaskSecondary => select_drive(d, 0, 0, 0),
            DetectPhase::Selected => (Detection { phase: DetectPhase::SelectSlept, ..d }, DetectAction::Sleep),
            DetectPhase::SelectSlept => (
                Detection { phase: DetectPhase::IdentifySent, ..d },
                DetectAction::Write { channel: ch, reg: REG_COMMAND, data: ATACommand::Identify.code() },
            ),
            DetectPhase::IdentifySent => (Detection { phase: DetectPhase::IdentifySlept, ..d }, DetectAction::Sleep),
            DetectPhase::IdentifySlept => (
                Detection { phase: DetectPhase::FirstStatus, ..d },
                DetectAction::Read { channel: ch, reg: REG_STATUS },
            ),
            DetectPhase::FirstStatus => match e {
                DetectEvent::Value(st) => match identify_step(st, true) {
                    IdentifyStep::Absent => next_drive(d, d.count),
                    _ => (
                        Detection { phase: DetectPhase::Polling, ..d },
                        DetectAction::Read { channel: ch, reg: REG_STATUS },
                    ),
                },
                _ => (Detection { phase: DetectPhase::Polling, ..d }, DetectAction::Read { channel: ch, reg: REG_STATUS }),
            },
            DetectPhase::Polling => match e {
                DetectEvent::Value(st) => match identify_step(st, false) {
                    IdentifyStep::Error => (
                        Detection { phase: DetectPhase::ProbeLow, ..d },
                        DetectAction::Read { channel: ch, reg: REG_LBA1 },
                    ),
                    IdentifyStep::Ready => (
                        Detection { kind: 0, phase: DetectPhase::Identity, ..d },
                        DetectAction::ReadIdentity { channel: ch },
                    ),
                    _ => (d, DetectAction::Read { channel: ch, reg: REG_STATUS }),
                },
                _ => (d, DetectAction::Finish(Ok(()))),
            },
            DetectPhase::ProbeLow => match e {
                DetectEvent::Value(cl) => (
                    Detection { phase: DetectPhase::ProbeHigh(cl), ..d },
                    DetectAction::Read { channel: ch, reg: REG_LBA2 },
                ),
                _ => (d, DetectAction::Finish(Ok(()))),
            },
            DetectPhase::ProbeHigh(cl) => match e {
                DetectEvent::Value(chb) => match probe_kind(cl, chb) {
                    Some(kind) => (
                        Detection { kind, phase: DetectPhase::PacketSent, ..d },
                        DetectAction::Write { channel: ch, reg: REG_COMMAND, data: ATACommand::IdentifyPacket.code() },
                    ),
                    None => next_drive(d, d.count),
                },
                _ => (d, DetectAction::Finish(Ok(()))),
            },
            DetectPhase::PacketSent => (Detection { phase: DetectPhase::PacketSlept, ..d }, DetectAction::Sleep),
            DetectPhase::PacketSlept => (
                Detection { phase: DetectPhase::Identity, ..d },
                DetectAction::ReadIdentity { channel: ch },
            ),
            DetectPhase::Identity => match e {
                DetectEvent::Identity(buf) => {
                    let device = IDEDevice::from_identify(d.kind, ch, d.drive, buf.as_slice());
                    if d.kind == 0 {
                        self.devices[d.count] = device;
                        next_drive(d, d.count + 1)
                    } else {
                        let mut found = device;
                        found.model = self.devices[d.count].model;
                        self.devices[d.count] = found;
                        proof {
                            lemma_model_from(buf@, device.model);
                        }
                        (
                            Detection { phase: DetectPhase::Capacity, model: device.model, ..d },
                            DetectAction::AskCapacity { channel: ch, drive: d.drive },
                        )
                    }
                },
                _ => (d, DetectAction::Finish(Ok(()))),
            },
            DetectPhase::Capacity => match e {
                DetectEvent::Capacity(Ok(size)) => {
                    let mut device = self.devices[d.count];
                    device.size = size;
                    device.model = d.model;
                    self.devices[d.count] = device;
                    next_drive(d, d.count + 1)
                },
                DetectEvent::Capacity(Err(err)) => (
                    Detection { phase: DetectPhase::Failed(err), ..d },
                    DetectAction::Finish(Err(err)),
                ),
                _ => (d, DetectAction::Finish(Ok(()))),
            },
            DetectPhase::Done => (d, DetectAction::Finish(Ok(()))),
            DetectPhase::Failed(err) => (d, DetectAction::Finish(Err(err))),
        }
    }
}

} // verus!
