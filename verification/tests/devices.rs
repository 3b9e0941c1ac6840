use kfs::io::PortWrite;
use kfs::pci::ide::ata::{ATAChannel, AccessPlan, RegWrite, ATA, REG_COMMAND, REG_LBA3, REG_STATUS};
use kfs::pci::ide::channel::IDEChannelRegisters;
use kfs::pci::ide::device::{IDEDevice, SectorAccess};
use kfs::pci::ide::atapi::ATAPI;
use kfs::pci::ide::detect::{DetectAction, DetectEvent, DetectPhase, Detection};
use kfs::pci::ide::packet_capacity::{CapacityAction, CapacityEvent, CapacityPhase, PacketCapacity};
use kfs::pci::ide::packet_eject::{EjectAction, EjectEvent, EjectPhase, PacketEject};
use kfs::pci::ide::packet_read::{PacketRead, ReadAction, ReadEvent, ReadPhase};
use kfs::pci::ide::transfer::{TransferAction, TransferEvent, TransferPhase};
use kfs::pci::ide::{identify_step, probe_kind, IDEController, IdentifyStep};
use kfs::pci::header::Headers;
use kfs::pci::{config_address, PciDevice};
use kfs::pic::pit::{set_pit, speaker_off, speaker_on, ACC_LOBHIB, CHANNEL_2, MODE_3};
use kfs::pic::{end_of_interrupts, irq_clear_mask, irq_set_mask, pic_init_masks, pic_remap};

fn pw(port: u16, value: u8) -> PortWrite {
    PortWrite { port, value }
}

#[test]
fn pic_end_of_interrupts() {
    assert_eq!(end_of_interrupts(9), vec![pw(0xa0, 0x20), pw(0x20, 0x20)]);
    assert_eq!(end_of_interrupts(1), vec![pw(0x20, 0x20)]);
}

#[test]
fn pic_masks() {
    assert_eq!(irq_set_mask(10, 0x01), pw(0xa1, 0x05));
    assert_eq!(irq_clear_mask(3, 0xff), pw(0x21, 0xf7));
    assert_eq!(pic_init_masks(), vec![pw(0x21, 0xf8), pw(0xa1, 0xfe)]);
    let r = pic_remap(0x20, 0x28, 0xaa, 0xbb);
    assert_eq!(r.len(), 10);
    assert_eq!(r[0], pw(0x20, 0x11));
    assert_eq!(r[2], pw(0x21, 0x20));
    assert_eq!(r[3], pw(0xa1, 0x28));
    assert_eq!(r[8], pw(0x21, 0xaa));
    assert_eq!(r[9], pw(0xa1, 0xbb));
}

#[test]
fn pit_and_speaker() {
    assert_eq!(set_pit(CHANNEL_2, ACC_LOBHIB, MODE_3, 0x1234), vec![pw(0x43, 0xb6), pw(0x42, 0x34), pw(0x42, 0x12)]);
    assert_eq!(speaker_on(0x01), Some(pw(0x61, 0x03)));
    assert_eq!(speaker_on(0x03), None);
    assert_eq!(speaker_off(0xff), pw(0x61, 0xfc));
}

fn config_space() -> Vec<u32> {
    let mut space = vec![0u32; 512];
    space[0] = 0x1234_8086;
    space[1] = 0x0290_0007;
    space[2] = 0x0101_8a01;
    space[3] = 0x0080_0010;
    space[4] = 0x1f1;
    space[5] = 0x3f5;
    space[10] = 0xdead;
    space[11] = 0x5678_abcd;
    space[15] = 0x0000_010b;
    // function 1: its command and status register
    space[64 + 1] = 0x0010_0005;
    space
}

#[test]
fn pci_address_and_header() {
    assert_eq!(config_address(1, 2, 0, 0x0c), 0x8001_100c);
    assert_eq!(config_address(0, 0, 0, 0x0f), 0x8000_000c);
    let mut dev = PciDevice::new(0, 3, config_space());
    assert_eq!(dev.config_read_word(0, 1), 0x1234);
    assert_eq!(dev.config_read_word(0, 0), 0x8086);
    assert_eq!(dev.config_read_byte(0, 0x0e), 0x80);
    assert_eq!(dev.config_read_reg(0, 0x10), 0x1f1);
    assert_eq!(dev.config_read_word(1, (1 << 2) | 0), 0x0005);
    assert_eq!(dev.config_read_word(1, (1 << 2) | 1), 0x0010);
    assert_eq!(dev.config_read_byte(1, 4), 0x05);
    dev.read_all_header();
    assert_eq!(dev.config.common.vendor_id, 0x8086);
    assert_eq!(dev.config.common.device_id, 0x1234);
    assert_eq!(dev.config.common.command, 0x0007);
    assert_eq!(dev.config.common.status, 0x0290);
    assert_eq!(dev.config.common.class_code, 0x01);
    assert_eq!(dev.config.common.subclass, 0x01);
    assert_eq!(dev.config.common.prog_if, 0x8a);
    assert_eq!(dev.config.common.header_type, 0x80);
    match dev.config.header {
        Headers::Standard(h) => {
            assert_eq!(h.base_addr[0], 0x1f1);
            assert_eq!(h.base_addr[1], 0x3f5);
            assert_eq!(h.cis_ptr, 0xdead);
            assert_eq!(h.subs_vid, 0xabcd);
            assert_eq!(h.subs_id, 0x5678);
            assert_eq!(h.int_line, 0x0b);
            assert_eq!(h.int_pin, 0x01);
        },
        _ => panic!("expected a standard header"),
    }
}

fn channel() -> IDEChannelRegisters {
    IDEChannelRegisters::new(ATAChannel::Primary, 0x1f0, 0x3f4, 0, 0)
}

#[test]
fn ide_channel_ports() {
    let mut ch = channel();
    assert_eq!(ch.write(REG_COMMAND, 0xec), vec![pw(0x1f7, 0xec)]);
    assert_eq!(ch.write(REG_LBA3, 5), vec![pw(0x3f6, 0x80), pw(0x1f3, 5), pw(0x3f6, 0)]);
    let r = ch.read(REG_STATUS);
    assert!(r.before.is_empty() && r.after.is_empty());
    assert_eq!(r.port, Some(0x1f7));
    assert_eq!(ch.read(0x0c).port, Some(0x3f6));
    assert_eq!(ch.read(0x20).port, None);
    assert_eq!(ch.polling(1, 0x58), Ok(()));
    assert_eq!(ch.polling(1, 0x51), Err(2));
    assert_eq!(ch.polling(1, 0x28), Err(1));
    assert_eq!(ch.polling(1, 0x50), Err(3));
    assert_eq!(ch.polling(0, 0x00), Ok(()));
}

fn ata_device(capabilities: u16, size: u32) -> IDEDevice {
    let mut d = IDEDevice::new();
    d.reserved = 1;
    d.channel = Some(channel());
    d.kind = 0;
    d.size = size;
    d.capabilities = capabilities;
    d.drive = 1;
    d
}

fn plan_of(r: Result<SectorAccess, u8>) -> AccessPlan {
    match r {
        Ok(SectorAccess::Ata(p)) => p,
        _ => panic!("expected an ATA transfer"),
    }
}

#[test]
fn ide_device_checks() {
    assert!(matches!(IDEDevice::new().read_sectors(1, 0, 0), Err(1)));
    let d = ata_device(0x200, 100);
    assert!(matches!(d.read_sectors(2, 99, 0x1000), Err(2)));
    let p = plan_of(d.read_sectors(1, 10, 0x1000));
    assert_eq!(p.lba_mode, 1);
    assert_eq!(p.lba_io, [10, 0, 0, 0, 0, 0]);
    assert_eq!(p.command, 0x20);
    assert_eq!(p.flush, None);
    assert_eq!(p.words, 256);
    assert_eq!(p.bus, 0x1f0);
    assert_eq!(
        p.writes,
        vec![
            RegWrite { reg: 6, value: 0xf0 },
            RegWrite { reg: 2, value: 1 },
            RegWrite { reg: 3, value: 10 },
            RegWrite { reg: 4, value: 0 },
            RegWrite { reg: 5, value: 0 },
        ]
    );
    let mut w = ata_device(0x200, 100);
    let p = plan_of(w.write_sectors(1, 10, 0x1000));
    assert_eq!(p.command, 0x30);
    assert_eq!(p.flush, Some(0xe7));
}

#[test]
fn ide_addressing_modes() {
    let chs = ata_device(0, 1000);
    let p = plan_of(chs.read_sectors(1, 100, 0));
    assert_eq!(p.lba_mode, 0);
    assert_eq!(p.lba_io, [38, 0, 0, 0, 0, 0]);
    assert_eq!(p.head, 1);
    assert_eq!(p.writes[0], RegWrite { reg: 6, value: 0xb1 });
    let big = ata_device(0x200, 0xffff_0000);
    let p = plan_of(big.read_sectors(1, 0x1000_0000, 0));
    assert_eq!(p.lba_mode, 2);
    assert_eq!(p.lba_io, [0, 0, 0, 0x10, 0, 0]);
    assert_eq!(p.command, 0x24);
    assert_eq!(p.writes.len(), 9);
    assert_eq!(p.writes[2], RegWrite { reg: 9, value: 0x10 });
    assert!(ATA::access(0, &IDEDevice::new(), 0, 1, 0).is_err());
}

#[test]
fn ide_atapi_and_errors() {
    let mut cd = ata_device(0, 0);
    cd.kind = 1;
    assert!(matches!(cd.read_sectors(2, 7, 0x10), Ok(SectorAccess::Atapi { lba: 7, numsects: 2, edi: 0x10 })));
    assert!(matches!(cd.write_sectors(2, 7, 0x10), Err(4)));
    let mut lost = ata_device(0, 100);
    lost.channel = None;
    assert!(matches!(lost.read_sectors(1, 0, 0), Err(23)));
    let d = ata_device(0, 100);
    assert_eq!(d.print_error(2, 0x84), 13);
    assert_eq!(d.print_error(2, 0x01), 7);
    assert_eq!(d.print_error(2, 0x00), 2);
    assert_eq!(d.print_error(1, 0), 19);
    assert_eq!(d.print_error(3, 0), 23);
    assert_eq!(d.print_error(4, 0), 8);
    assert_eq!(d.print_error(0, 0xff), 0);
    assert_eq!(d.print_error(9, 0), 9);
}

#[test]
fn ide_controller_devices() {
    let mut c = IDEController::new();
    assert!(c.get_device(0).is_none());
    assert!(c.get_device(5).is_none());
    c.devices[1] = ata_device(0x200, 100);
    assert!(c.get_device(1).is_some());
    assert!(matches!(c.read_sectors(0, 1, 0, 0), Err(1)));
    assert!(matches!(c.read_sectors(1, 1, 0, 0), Ok(SectorAccess::Ata(_))));
    assert!(matches!(c.write_sectors(1, 200, 0, 0), Err(2)));
}

#[test]
fn atapi_packets() {
    assert_eq!(ATAPI::read(0x01020304, 2), [0xa8, 0, 1, 2, 3, 4, 0, 0, 0, 2, 0, 0]);
    assert_eq!(ATAPI::capacity(0), [0x25, 0, 0, 0, 0, 0, 0, 0, 0, 0, 0, 0]);
}

#[test]
fn atapi_capacity_size() {
    // last block 0x1ff (big-endian on the wire), blocks of 2048 bytes
    let last = u32::from_le_bytes([0, 0, 1, 0xff]);
    let block = u32::from_le_bytes([0, 0, 8, 0]);
    assert_eq!(ATAPI::capacity_size(last, block), 2048);
}

#[test]
fn atapi_eject() {
    let absent = IDEDevice::new();
    assert_eq!(ATAPI::eject(&absent), Err(1));
    let ata = IDEDevice::from_identify(0, channel(), 0, &[0u8; 512]);
    assert_eq!(ATAPI::eject(&ata), Err(20));
    let cd = IDEDevice::from_identify(1, channel(), 1, &[0u8; 512]);
    assert_eq!(ATAPI::eject(&cd), Ok([0x1b, 0, 0, 2, 0, 0, 0, 0, 0, 0, 0, 0]));
    assert_eq!(ATAPI::eject_result(Err(3)), Ok(()));
    assert_eq!(ATAPI::eject_result(Err(2)), Err(2));
}

#[test]
fn ide_from_identify() {
    let mut buf = [0u8; 512];
    buf[0] = 0x40;
    buf[98] = 0x00;
    buf[99] = 0x02;
    buf[120..124].copy_from_slice(&1000u32.to_le_bytes());
    buf[200..204].copy_from_slice(&5000u32.to_le_bytes());
    buf[164..168].copy_from_slice(&0x0400_0000u32.to_le_bytes());
    buf[54..58].copy_from_slice(b"AQ E");
    let dev = IDEDevice::from_identify(0, channel(), 1, &buf);
    assert_eq!(dev.reserved, 1);
    assert_eq!(dev.drive, 1);
    assert_eq!(dev.signature, 0x40);
    assert_eq!(dev.capabilities, 0x200);
    assert_eq!(dev.size, 5000);
    assert_eq!(&dev.model[0..4], b"QAE ");
    assert_eq!(dev.model[40], 0);
    buf[164..168].copy_from_slice(&0u32.to_le_bytes());
    assert_eq!(IDEDevice::from_identify(0, channel(), 1, &buf).size, 1000);
    assert_eq!(IDEDevice::from_identify(1, channel(), 1, &buf).size, 0);
}

#[test]
fn ide_probe_and_identify_steps() {
    assert_eq!(probe_kind(0x14, 0xeb), Some(1));
    assert_eq!(probe_kind(0x69, 0x96), Some(1));
    assert_eq!(probe_kind(0, 0), None);
    assert_eq!(identify_step(0, true), IdentifyStep::Absent);
    assert_eq!(identify_step(0x01, false), IdentifyStep::Error);
    assert_eq!(identify_step(0x08, false), IdentifyStep::Ready);
    assert_eq!(identify_step(0x88, false), IdentifyStep::Wait);
    assert_eq!(identify_step(0, false), IdentifyStep::Wait);
}

/// The answer of four drive slots to the access `action` asks for: an ATA
/// drive, no drive, an ATAPI drive and a drive of unknown signature.
fn answer(state: &Detection, action: &DetectAction, capacity: Result<u32, u8>) -> DetectEvent {
    let slot = (state.channel * 2 + state.drive) as usize;
    match action {
        DetectAction::Write { .. } | DetectAction::Sleep => DetectEvent::Done,
        DetectAction::Read { .. } => match state.phase {
            DetectPhase::FirstStatus => DetectEvent::Value([0x58, 0, 0x51, 0x51][slot]),
            DetectPhase::Polling => DetectEvent::Value([0x58, 0, 0x01, 0x01][slot]),
            DetectPhase::ProbeLow => DetectEvent::Value([0, 0, 0x14, 0x00][slot]),
            DetectPhase::ProbeHigh(_) => DetectEvent::Value([0, 0, 0xeb, 0x00][slot]),
            other => panic!("read in phase {:?}", other),
        },
        DetectAction::ReadIdentity { .. } => {
            let mut buf = vec![0u8; 512];
            buf[120..124].copy_from_slice(&7000u32.to_le_bytes());
            buf[54..58].copy_from_slice(b"DCOR");
            DetectEvent::Identity(buf)
        },
        DetectAction::AskCapacity { .. } => DetectEvent::Capacity(capacity),
        DetectAction::Finish(_) => panic!("no access after the end"),
    }
}

/// Runs detection to its end and gives its outcome and the number of steps.
fn run_detection(controller: &mut IDEController, capacity: Result<u32, u8>) -> (Result<(), u8>, usize) {
    let (mut state, mut action) = controller.initialize(0x1f0, 0x3f6, 0x170, 0x376, 0xc000);
    assert!(matches!(action, DetectAction::Write { reg: 0x0c, data: 2, .. }));
    let mut steps = 0;
    loop {
        if let DetectAction::Finish(outcome) = action {
            return (outcome, steps);
        }
        let event = answer(&state, &action, capacity);
        let (s, a) = controller.detect_step(state, event);
        state = s;
        action = a;
        steps += 1;
        assert!(steps < 100);
    }
}

#[test]
fn ide_detection_finds_ata_and_atapi_drives() {
    let mut controller = IDEController::new();
    let (outcome, _) = run_detection(&mut controller, Ok(1000));
    assert_eq!(outcome, Ok(()));
    let ata = &controller.devices[0];
    assert_eq!((ata.reserved, ata.kind, ata.drive, ata.size), (1, 0, 0, 7000));
    assert_eq!(ata.channel.unwrap().base, 0x1f0);
    let cd = &controller.devices[1];
    assert_eq!((cd.reserved, cd.kind, cd.drive, cd.size), (1, 1, 0, 1000));
    assert_eq!(cd.channel.unwrap().base, 0x170);
    assert_eq!(cd.channel.unwrap().bmide, 0xc008);
    assert_eq!(&cd.model[0..4], b"CDRO");
    assert_eq!(&ata.model[0..4], b"CDRO");
    assert_eq!(controller.devices[2].reserved, 0);
    assert_eq!(controller.devices[3].reserved, 0);
}

#[test]
fn ide_detection_stops_on_capacity_error() {
    let mut controller = IDEController::new();
    let (outcome, _) = run_detection(&mut controller, Err(3));
    assert_eq!(outcome, Err(3));
    assert_eq!(controller.devices[0].reserved, 1);
    assert_eq!(controller.devices[1].reserved, 1);
    assert_eq!(controller.devices[1].size, 0);
    // the model of the drive whose capacity failed is not filled
    assert_eq!(controller.devices[1].model[0], 0);
    assert_eq!(&controller.devices[0].model[0..4], b"CDRO");
}

#[test]
fn ide_detection_step_by_step() {
    let mut controller = IDEController::new();
    let (state, action) = controller.initialize(0x1f0, 0x3f6, 0x170, 0x376, 0xc000);
    assert_eq!(state.phase, DetectPhase::MaskPrimary);
    assert!(matches!(action, DetectAction::Write { reg: 0x0c, data: 2, .. }));
    let (state, action) = controller.detect_step(state, DetectEvent::Done);
    assert!(matches!(action, DetectAction::Write { channel, reg: 0x0c, data: 2 } if channel.base == 0x170));
    let (state, action) = controller.detect_step(state, DetectEvent::Done);
    assert_eq!((state.channel, state.drive, state.phase), (0, 0, DetectPhase::Selected));
    assert!(matches!(action, DetectAction::Write { reg: 0x06, data: 0xa0, .. }));
    let (state, action) = controller.detect_step(state, DetectEvent::Done);
    assert!(matches!(action, DetectAction::Sleep));
    let (state, action) = controller.detect_step(state, DetectEvent::Done);
    assert!(matches!(action, DetectAction::Write { reg: 0x07, data: 0xec, .. }));
    let (state, _) = controller.detect_step(state, DetectEvent::Done);
    let (state, action) = controller.detect_step(state, DetectEvent::Done);
    assert_eq!(state.phase, DetectPhase::FirstStatus);
    assert!(matches!(action, DetectAction::Read { reg: 0x07, .. }));
    // no drive: on to the slave drive of the primary channel
    let (state, action) = controller.detect_step(state, DetectEvent::Value(0));
    assert_eq!((state.channel, state.drive, state.phase), (0, 1, DetectPhase::Selected));
    assert!(matches!(action, DetectAction::Write { reg: 0x06, data: 0xb0, .. }));
}

/// Carries out `plan` on `channel` with every status read giving
/// `status`: the port writes made, the moves made and the outcome.
fn run_plan(plan: &AccessPlan, channel: IDEChannelRegisters, status: u8) -> (Vec<PortWrite>, Vec<(u16, u32, u32, bool)>, Result<(), u8>) {
    let (mut state, mut action) = plan.start(channel);
    let mut writes = Vec::new();
    let mut moves = Vec::new();
    for _ in 0..1000 {
        let event = match action {
            TransferAction::Write { channel, reg, value } => {
                let mut ch = channel;
                writes.extend(ch.write(reg, value));
                TransferEvent::Done
            },
            TransferAction::Read { .. } => TransferEvent::Value(status),
            TransferAction::MoveIn { port, edi, words } => {
                moves.push((port, edi, words, true));
                TransferEvent::Done
            },
            TransferAction::MoveOut { port, edi, words } => {
                moves.push((port, edi, words, false));
                TransferEvent::Done
            },
            TransferAction::Finish(outcome) => return (writes, moves, outcome),
        };
        let (s, a) = plan.step(state, event);
        state = s;
        action = a;
    }
    panic!("the transfer does not end");
}

#[test]
fn ata_transfer_reads_a_chs_sector() {
    let mut d = ata_device(0, 100_000);
    d.drive = 0;
    let plan = plan_of(d.read_sectors(1, 2000, 0x8000));
    let (writes, moves, outcome) = run_plan(&plan, channel(), 0x58);
    assert_eq!(outcome, Ok(()));
    assert_eq!(
        writes,
        vec![pw(0x3f6, 0x02), pw(0x1f6, 0xaf), pw(0x1f2, 0x01), pw(0x1f3, 0x30), pw(0x1f4, 0x01), pw(0x1f5, 0x00), pw(0x1f7, 0x20)]
    );
    assert_eq!(moves, vec![(0x1f0, 0x8000, 256, true)]);
}

#[test]
fn ata_transfer_writes_and_flushes() {
    let mut d = ata_device(0x200, 100_000);
    let plan = plan_of(d.write_sectors(2, 10, 0x8000));
    let (writes, moves, outcome) = run_plan(&plan, channel(), 0x50);
    assert_eq!(outcome, Ok(()));
    assert_eq!(moves, vec![(0x1f0, 0x8000, 256, false), (0x1f0, 0x8200, 256, false)]);
    assert_eq!(writes.last(), Some(&pw(0x1f7, 0xe7)));
}

#[test]
fn ata_transfer_stops_on_errors() {
    let d = ata_device(0x200, 100_000);
    let plan = plan_of(d.read_sectors(1, 10, 0));
    assert_eq!(run_plan(&plan, channel(), 0x51).2, Err(2));
    assert_eq!(run_plan(&plan, channel(), 0x68).2, Err(1));
    assert_eq!(run_plan(&plan, channel(), 0x50).2, Err(3));
    assert_eq!(run_plan(&plan, channel(), 0x51).1.len(), 0);
    // a busy drive is waited for
    let (state, _) = plan.start(channel());
    let (state, _) = plan.step(state, TransferEvent::Done);
    assert_eq!(state.phase, TransferPhase::WaitReady);
    let (state, action) = plan.step(state, TransferEvent::Value(0x80));
    assert_eq!(state.phase, TransferPhase::WaitReady);
    assert!(matches!(action, TransferAction::Read { reg: 0x07, .. }));
}

#[test]
fn atapi_read_steps() {
    let (mut state, mut action) = PacketRead::start(channel(), 1, 0x10, 2, 0x4000);
    assert!(matches!(action, ReadAction::Write { reg: 0x0c, value: 0, .. }));
    let mut writes = Vec::new();
    let mut packets = Vec::new();
    let mut moves = Vec::new();
    let mut irqs = 0;
    let outcome = loop {
        let event = match action {
            ReadAction::Write { channel, reg, value } => {
                let mut ch = channel;
                writes.extend(ch.write(reg, value));
                ReadEvent::Done
            },
            ReadAction::Read { .. } => ReadEvent::Value(if state.phase == ReadPhase::Drain { 0x40 } else { 0x58 }),
            ReadAction::SendPacket { port, packet } => {
                packets.push((port, packet));
                ReadEvent::Done
            },
            ReadAction::WaitIrq => {
                irqs += 1;
                ReadEvent::Done
            },
            ReadAction::MoveIn { port, edi, words } => {
                moves.push((port, edi, words));
                ReadEvent::Done
            },
            ReadAction::Finish(outcome) => break outcome,
        };
        let (s, a) = state.step(event);
        state = s;
        action = a;
    };
    assert_eq!(outcome, Ok(()));
    assert_eq!(writes, vec![pw(0x3f6, 0), pw(0x1f6, 0x10), pw(0x1f1, 0), pw(0x1f4, 0), pw(0x1f5, 8), pw(0x1f7, 0xa0)]);
    assert_eq!(packets, vec![(0x1f0, [0xa8, 0, 0, 0, 0, 0x10, 0, 0, 0, 2, 0, 0])]);
    assert_eq!(moves, vec![(0x1f0, 0x4000, 1024), (0x1f0, 0x4800, 1024)]);
    assert_eq!(irqs, 3);
}

#[test]
fn atapi_read_stops_on_error() {
    let (mut state, mut action) = PacketRead::start(channel(), 0, 0, 1, 0);
    let outcome = loop {
        let event = match action {
            ReadAction::Read { .. } => ReadEvent::Value(0x51),
            ReadAction::Finish(outcome) => break outcome,
            _ => ReadEvent::Done,
        };
        let (s, a) = state.step(event);
        state = s;
        action = a;
    };
    assert_eq!(outcome, Err(2));
    assert_eq!(state.phase, ReadPhase::Failed(2));
}

/// Runs an eject with the status reads of the polling after the packet
/// giving `last` (the others 0x58).
fn run_eject(last: u8) -> (Vec<PortWrite>, usize, Result<(), u8>, EjectPhase) {
    let packet = [0x1b, 0, 0, 2, 0, 0, 0, 0, 0, 0, 0, 0];
    let (mut state, mut action) = PacketEject::start(channel(), 1, packet);
    let mut writes = Vec::new();
    let mut packets = 0;
    loop {
        let event = match action {
            EjectAction::Write { channel, reg, value } => {
                let mut ch = channel;
                writes.extend(ch.write(reg, value));
                EjectEvent::Done
            },
            EjectAction::Read { .. } => EjectEvent::Value(if packets > 0 { last } else { 0x58 }),
            EjectAction::SendPacket { packet: p, .. } => {
                assert_eq!(p, packet);
                packets += 1;
                EjectEvent::Done
            },
            EjectAction::WaitIrq => EjectEvent::Done,
            EjectAction::Finish(outcome) => return (writes, packets, outcome, state.phase),
        };
        let (s, a) = state.step(event);
        state = s;
        action = a;
    }
}

#[test]
fn atapi_eject_steps() {
    let (writes, packets, outcome, phase) = run_eject(0x50);
    // no data to read after the packet is no error
    assert_eq!(outcome, Ok(()));
    assert_eq!(phase, EjectPhase::Done);
    assert_eq!(packets, 1);
    assert_eq!(writes, vec![pw(0x3f6, 0), pw(0x1f6, 0x10), pw(0x1f7, 0xa0)]);
    assert_eq!(run_eject(0x51).2, Err(2));
    assert_eq!(run_eject(0x58).2, Ok(()));
}

/// Runs a capacity request whose polling reads give `poll`, whose answer
/// is `answer` and whose status reads after it give 0x50.
fn run_capacity(poll: u8, answer: (u32, u32)) -> (Vec<PortWrite>, usize, Result<u32, u8>, CapacityPhase) {
    let (mut state, mut action) = PacketCapacity::start(channel(), 1);
    let mut writes = Vec::new();
    let mut packets = 0;
    let mut answered = false;
    loop {
        let event = match action {
            CapacityAction::Write { channel, reg, value } => {
                let mut ch = channel;
                writes.extend(ch.write(reg, value));
                CapacityEvent::Done
            },
            CapacityAction::Read { .. } => CapacityEvent::Value(if answered { 0x50 } else { poll }),
            CapacityAction::SendPacket { packet, .. } => {
                assert_eq!(packet[0], 0x25);
                packets += 1;
                CapacityEvent::Done
            },
            CapacityAction::ReadAnswer { port } => {
                assert_eq!(port, 0x1f0);
                answered = true;
                CapacityEvent::Answer(answer.0, answer.1)
            },
            CapacityAction::Finish(outcome) => return (writes, packets, outcome, state.phase),
        };
        let (s, a) = state.step(event);
        state = s;
        action = a;
    }
}

#[test]
fn atapi_capacity_steps() {
    // last block 0xff and blocks of 2048 bytes, both big-endian
    let (writes, packets, outcome, phase) = run_capacity(0x58, (0xff00_0000, 0x0008_0000));
    assert_eq!(outcome, Ok(1024));
    assert_eq!(phase, CapacityPhase::Done(1024));
    assert_eq!(packets, 1);
    assert_eq!(writes, vec![pw(0x3f6, 0), pw(0x1f6, 0x10), pw(0x1f1, 0), pw(0x1f4, 8), pw(0x1f5, 0), pw(0x1f7, 0xa0)]);
    let (_, packets, outcome, phase) = run_capacity(0x51, (0, 0));
    assert_eq!(outcome, Err(2));
    assert_eq!(phase, CapacityPhase::Failed(2));
    assert_eq!(packets, 0);
    assert_eq!(run_capacity(0x50, (0, 0)).2, Err(3));
}
