//! The two 8259 interrupt controllers: remapping, masks and end of
//! interrupt, as the port writes that do them.

use vstd::prelude::*;

pub mod pit;

use crate::io::PortWrite;

verus! {

/// The lines of the first controller.
#[derive(Debug, Clone, Copy, PartialEq, Eq, Structural)]
pub enum Pic1 {
    Timer,
    Keyboard,
    Slave,
    Serial1,
    Serial2,
    ParallelPort23,
    FloppyDisk,
    ParallelPort1,
}

/// The lines of the second controller.
#[derive(Debug, Clone, Copy, PartialEq, Eq, Structural)]
pub enum Pic2 {
    RealTimeClock,
    ACPI,
    Available0,
    Available1,
    Mouse,
    CoProcessor,
    PrimaryATA,
    SecondaryATA,
}

/// The mask bit of a line of the first controller.
pub open spec fn pic1_bit(line: Pic1) -> u8 {
    match line {
        Pic1::Timer => 0x01,
        Pic1::Keyboard => 0x02,
        Pic1::Slave => 0x04,
        Pic1::Serial1 => 0x08,
        Pic1::Serial2 => 0x10,
        Pic1::ParallelPort23 => 0x20,
        Pic1::FloppyDisk => 0x40,
        Pic1::ParallelPort1 => 0x80,
    }
}

/// The mask bit of a line of the second controller.
pub open spec fn pic2_bit(line: Pic2) -> u8 {
    match line {
        Pic2::RealTimeClock => 0x01,
        Pic2::ACPI => 0x02,
        Pic2::Available0 => 0x04,
        Pic2::Available1 => 0x08,
        Pic2::Mouse => 0x10,
        Pic2::CoProcessor => 0x20,
        Pic2::PrimaryATA => 0x40,
        Pic2::SecondaryATA => 0x80,
    }
}

impl Pic1 {
    pub fn bit(self) -> (res: u8)
        ensures
            res == pic1_bit(self),
    {
        match self {
            Pic1::Timer => 0x01,
            Pic1::Keyboard => 0x02,
            Pic1::Slave => 0x04,
            Pic1::Serial1 => 0x08,
            Pic1::Serial2 => 0x10,
            Pic1::ParallelPort23 => 0x20,
            Pic1::FloppyDisk => 0x40,
            Pic1::ParallelPort1 => 0x80,
        }
    }
}

impl Pic2 {
    pub fn bit(self) -> (res: u8)
        ensures
            res == pic2_bit(self),
    {
        match self {
            Pic2::RealTimeClock => 0x01,
            Pic2::ACPI => 0x02,
            Pic2::Available0 => 0x04,
            Pic2::Available1 => 0x08,
            Pic2::Mouse => 0x10,
            Pic2::CoProcessor => 0x20,
            Pic2::PrimaryATA => 0x40,
            Pic2::SecondaryATA => 0x80,
        }
    }
}

/// The command port of the first controller.
pub const PIC1_CMD: u16 = 0x20;

/// The data port of the first controller.
pub const PIC1_DATA: u16 = 0x21;

/// The command port of the second controller.
pub const PIC2_CMD: u16 = 0xa0;

/// The data port of the second controller.
pub const PIC2_DATA: u16 = 0xa1;

pub const PIC1_IRQ_OFFSET: u8 = 0x20;

pub const PIC1_IRQ_TIMER: u8 = 0x20;

pub const PIC1_IRQ_KEYBOARD: u8 = 0x21;

pub const PIC1_IRQ_SLAVE: u8 = 0x22;

pub const PIC1_IRQ_SERIAL1: u8 = 0x23;

pub const PIC1_IRQ_SERIAL2: u8 = 0x24;

pub const PIC1_IRQ_PARA23: u8 = 0x25;

pub const PIC1_IRQ_FLOPPY: u8 = 0x26;

pub const PIC1_IRQ_PARA1: u8 = 0x27;

pub const PIC2_IRQ_OFFSET: u8 = 0x28;

pub const PIC2_IRQ_CLOCK: u8 = 0x28;

pub const PIC2_IRQ_ACPI: u8 = 0x29;

pub const PIC2_IRQ_AVAILABLE0: u8 = 0x2a;

pub const PIC2_IRQ_AVAILABLE1: u8 = 0x2b;

pub const PIC2_IRQ_MOUSE: u8 = 0x2c;

pub const PIC2_IRQ_COPROC: u8 = 0x2d;

pub const PIC2_IRQ_PRIMATA: u8 = 0x2e;

pub const PIC2_IRQ_SECATA: u8 = 0x2f;

/// The end of interrupt command.
pub const PIC_EOI: u8 = 0x20;

/// Initialization command word 1: start initialization, ICW4 follows.
pub const ICW1_INIT_ICW4: u8 = 0x11;

/// Initialization command word 4: 8086 mode.
pub const ICW4_8086: u8 = 0x01;

/// The writes that end interrupt `irq`: the second controller is told
/// too when the line is one of its own (8 and up).
pub fn end_of_interrupts(irq: usize) -> (res: std::vec::Vec<PortWrite>)
    ensures
        irq >= 8 ==> res@ == seq![PortWrite { port: PIC2_CMD, value: PIC_EOI }, PortWrite { port: PIC1_CMD, value: PIC_EOI }],
        irq < 8 ==> res@ == seq![PortWrite { port: PIC1_CMD, value: PIC_EOI }],
{
    let mut res = std::vec::Vec::new();
    if irq >= 8 {
        res.push(PortWrite { port: PIC2_CMD, value: PIC_EOI });
    }
    res.push(PortWrite { port: PIC1_CMD, value: PIC_EOI });
    res
}

/// The writes that remap the controllers' vectors to `offset1` and
/// `offset2`, restoring the masks `mask1` and `mask2` read from their data
/// ports beforehand. The caller waits after each of the first eight.
pub fn pic_remap(offset1: u8, offset2: u8, mask1: u8, mask2: u8) -> (res: std::vec::Vec<PortWrite>)
    ensures
        res@ == seq![
            PortWrite { port: PIC1_CMD, value: ICW1_INIT_ICW4 },
            PortWrite { port: PIC2_CMD, value: ICW1_INIT_ICW4 },
            PortWrite { port: PIC1_DATA, value: offset1 },
            PortWrite { port: PIC2_DATA, value: offset2 },
            PortWrite { port: PIC1_DATA, value: 4 },
            PortWrite { port: PIC2_DATA, value: 2 },
            PortWrite { port: PIC1_DATA, value: ICW4_8086 },
            PortWrite { port: PIC2_DATA, value: ICW4_8086 },
            PortWrite { port: PIC1_DATA, value: mask1 },
            PortWrite { port: PIC2_DATA, value: mask2 },
        ],
{
    let mut res = std::vec::Vec::new();
    res.push(PortWrite { port: PIC1_CMD, value: ICW1_INIT_ICW4 });
    res.push(PortWrite { port: PIC2_CMD, value: ICW1_INIT_ICW4 });
    res.push(PortWrite { port: PIC1_DATA, value: offset1 });
    res.push(PortWrite { port: PIC2_DATA, value: offset2 });
    res.push(PortWrite { port: PIC1_DATA, value: 4 });
    res.push(PortWrite { port: PIC2_DATA, value: 2 });
    res.push(PortWrite { port: PIC1_DATA, value: ICW4_8086 });
    res.push(PortWrite { port: PIC2_DATA, value: ICW4_8086 });
    res.push(PortWrite { port: PIC1_DATA, value: mask1 });
    res.push(PortWrite { port: PIC2_DATA, value: mask2 });
    res
}

/// The data port that holds the mask of line `irq`.
pub fn irq_port(irq: usize) -> (res: u16)
    ensures
        res == if irq < 8 { PIC1_DATA } else { PIC2_DATA },
{
    if irq < 8 {
        PIC1_DATA
    } else {
        PIC2_DATA
    }
}

/// The mask bit of line `irq` in its controller.
pub open spec fn irq_bit(irq: usize) -> u8 {
    (1u8 << (irq % 8) as u8) as u8
}

fn irq_bit_of(irq: usize) -> (res: u8)
    requires
        irq < 16,
    ensures
        res == irq_bit(irq),
{
    let line: u8 = if irq < 8 { irq as u8 } else { (irq - 8) as u8 };
    assert(line == (irq % 8) as u8);
    1u8 << line
}

/// The write that masks line `irq` (0 to 15), from the mask `current` read
/// from `irq_port(irq)`.
pub fn irq_set_mask(irq: usize, current: u8) -> (res: PortWrite)
    requires
        irq < 16,
    ensures
        res.port == if irq < 8 { PIC1_DATA } else { PIC2_DATA },
        res.value == current | irq_bit(irq),
{
    PortWrite { port: irq_port(irq), value: current | irq_bit_of(irq) }
}

/// The write that unmasks line `irq` (0 to 15), from the mask `current`
/// read from `irq_port(irq)`.
pub fn irq_clear_mask(irq: usize, current: u8) -> (res: PortWrite)
    requires
        irq < 16,
    ensures
        res.port == if irq < 8 { PIC1_DATA } else { PIC2_DATA },
        res.value == current & !irq_bit(irq),
{
    PortWrite { port: irq_port(irq), value: current & !irq_bit_of(irq) }
}

/// The writes that leave only the timer, the keyboard and the cascade of
/// the first controller and the clock of the second unmasked (a set bit
/// masks a line).
pub fn pic_init_masks() -> (res: std::vec::Vec<PortWrite>)
    ensures
        res@ == seq![
            PortWrite { port: PIC1_DATA, value: 0xff ^ (pic1_bit(Pic1::Timer) | pic1_bit(Pic1::Keyboard) | pic1_bit(Pic1::Slave)) },
            PortWrite { port: PIC2_DATA, value: 0xff ^ pic2_bit(Pic2::RealTimeClock) },
        ],
{
    let pic1mask: u8 = Pic1::Timer.bit() | Pic1::Keyboard.bit() | Pic1::Slave.bit();
    let pic2mask: u8 = Pic2::RealTimeClock.bit();
    let mut res = std::vec::Vec::new();
    res.push(PortWrite { port: PIC1_DATA, value: 0xff ^ pic1mask });
    res.push(PortWrite { port: PIC2_DATA, value: 0xff ^ pic2mask });
    res
}

/// Unmasking a line right after masking it leaves the mask as it was when
/// the line was unmasked, and masking right after unmasking as it was when
/// the line was masked.
pub proof fn lemma_mask_round_trip(current: u8, bit: u8)
    by (bit_vector)
    ensures
        current & bit == 0u8 ==> (current | bit) & !bit == current,
        current & bit == bit ==> (current & !bit) | bit == current,
{
}

} // verus!
