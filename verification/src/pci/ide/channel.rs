//! The registers of an IDE channel: which port each register is at, and
//! the port accesses that reach it.

use vstd::prelude::*;

use crate::io::PortWrite;
use crate::pci::ide::ata::{ATAChannel, REG_CONTROL, STATUS_DF, STATUS_DRQ, STATUS_ERR};

verus! {

/// The port accesses that read a register: writes before, the port read
/// (none for a register past the bus master ones, which reads as 0), writes
/// after.
#[derive(Debug, Clone)]
pub struct ChannelRead {
    pub before: std::vec::Vec<PortWrite>,
    pub port: Option<u16>,
    pub after: std::vec::Vec<PortWrite>,
}

/// The ports of a channel.
#[derive(Debug, Clone, Copy, PartialEq, Eq, Structural)]
pub struct IDEChannelRegisters {
    pub kind: ATAChannel,
    pub base: u16,
    pub ctrl: u16,
    pub bmide: u16,
    pub n_ien: u8,
}

/// The port of register `reg`: registers 0-7 from the I/O base, 8-11 (the
/// high bytes of 48-bit addressing) from the I/O base too, 12-13 from the
/// control base, 14-21 from the bus master base.
pub open spec fn reg_port(ch: IDEChannelRegisters, reg: u8) -> Option<int> {
    if reg < 0x08 {
        Some(ch.base + reg)
    } else if reg < 0x0c {
        Some(ch.base + reg - 0x06)
    } else if reg < 0x0e {
        Some(ch.ctrl + reg - 0x0a)
    } else if reg < 0x16 {
        Some(ch.bmide + reg - 0x0e)
    } else {
        None
    }
}

/// The ports of the channel, and the sums that give them, fit in 16 bits
/// for every register.
pub open spec fn ports_fit(ch: IDEChannelRegisters) -> bool {
    &&& ch.base + 0x0b <= u16::MAX
    &&& ch.ctrl + 0x0d <= u16::MAX
    &&& ch.bmide + 0x15 <= u16::MAX
}

/// Whether `reg` is one of the high bytes of 48-bit addressing, reached
/// with the high order bit of the control register set.
pub open spec fn is_high_reg(reg: u8) -> bool {
    0x08 <= reg < 0x0c
}

/// The writes that reach register `reg` with `data`.
pub open spec fn write_seq(ch: IDEChannelRegisters, reg: u8, data: u8) -> Seq<PortWrite> {
    let main = match reg_port(ch, reg) {
        Some(p) => seq![PortWrite { port: p as u16, value: data }],
        None => Seq::<PortWrite>::empty(),
    };
    if is_high_reg(reg) {
        seq![PortWrite { port: (ch.ctrl + 2) as u16, value: 0x80 | ch.n_ien }] + main + seq![
            PortWrite { port: (ch.ctrl + 2) as u16, value: ch.n_ien },
        ]
    } else {
        main
    }
}

/// The writes around a read of register `reg`.
pub open spec fn high_writes(ch: IDEChannelRegisters, reg: u8, before: bool) -> Seq<PortWrite> {
    if is_high_reg(reg) {
        seq![PortWrite { port: (ch.ctrl + 2) as u16, value: if before { 0x80 | ch.n_ien } else { ch.n_ien } }]
    } else {
        Seq::<PortWrite>::empty()
    }
}

impl IDEChannelRegisters {
    pub fn new(channel: ATAChannel, base: u16, ctrl: u16, bmide: u16, n_ien: u8) -> (res: Self)
        ensures
            res == (IDEChannelRegisters { kind: channel, base, ctrl, bmide, n_ien }),
    {
        IDEChannelRegisters { kind: channel, base, ctrl, bmide, n_ien }
    }

    fn port_of(&self, reg: u8) -> (res: Option<u16>)
        requires
            ports_fit(*self),
        ensures
            res matches Some(p) ==> reg_port(*self, reg) == Some(p as int),
            res is None ==> reg_port(*self, reg) is None,
    {
        if reg < 0x08 {
            Some(self.base + reg as u16)
        } else if reg < 0x0c {
            Some(self.base + reg as u16 - 0x06)
        } else if reg < 0x0e {
            Some(self.ctrl + reg as u16 - 0x0a)
        } else if reg < 0x16 {
            Some(self.bmide + reg as u16 - 0x0e)
        } else {
            None
        }
    }

    fn high_write(&self, reg: u8, before: bool) -> (res: std::vec::Vec<PortWrite>)
        requires
            ports_fit(*self),
        ensures
            res@ == high_writes(*self, reg, before),
    {
        let mut res = std::vec::Vec::new();
        if reg > 0x07 && reg < 0x0c {
            let value = if before {
                0x80 | self.n_ien
            } else {
                self.n_ien
            };
            res.push(PortWrite { port: self.ctrl + REG_CONTROL as u16 - 0x0a, value });
        }
        res
    }

    /// The port accesses that read register `reg`.
    pub fn read(&mut self, reg: u8) -> (res: ChannelRead)
        requires
            ports_fit(*old(self)),
        ensures
            *final(self) == *old(self),
            res.before@ == high_writes(*old(self), reg, true),
            res.after@ == high_writes(*old(self), reg, false),
            res.port matches Some(p) ==> reg_port(*old(self), reg) == Some(p as int),
            res.port is None ==> reg_port(*old(self), reg) is None,
    {
        ChannelRead { before: self.high_write(reg, true), port: self.port_of(reg), after: self.high_write(reg, false) }
    }

    /// The port accesses that read `quads` double words from register `reg`
    /// into a buffer.
    pub fn read_buffer(&mut self, reg: u8, quads: u32) -> (res: ChannelRead)
        requires
            ports_fit(*old(self)),
        ensures
            *final(self) == *old(self),
            res.before@ == high_writes(*old(self), reg, true),
            res.after@ == high_writes(*old(self), reg, false),
            res.port matches Some(p) ==> reg_port(*old(self), reg) == Some(p as int),
            res.port is None ==> reg_port(*old(self), reg) is None,
    {
        self.read(reg)
    }

    /// The writes that put `data` in register `reg`.
    pub fn write(&mut self, reg: u8, data: u8) -> (res: std::vec::Vec<PortWrite>)
        requires
            ports_fit(*old(self)),
        ensures
            *final(self) == *old(self),
            res@ == write_seq(*old(self), reg, data),
    {
        let mut res = self.high_write(reg, true);
        match self.port_of(reg) {
            Some(p) => {
                res.push(PortWrite { port: p, value: data });
            },
            None => {},
        }
        let after = self.high_write(reg, false);
        let mut i: usize = 0;
        let ghost mid = res@;
        while i < after.len()
            invariant
                i <= after@.len(),
                res@ == mid + after@.take(i as int),
            decreases after@.len() - i,
        {
            res.push(after[i]);
            assert(after@.take(i + 1) =~= after@.take(i as int).push(after@[i as int]));
            i += 1;
        }
        assert(after@.take(after@.len() as int) =~= after@);
        assert(res@ =~= write_seq(*old(self), reg, data));
        res
    }

    /// The outcome of polling once the drive is no longer busy, from the
    /// status `state` read then: with `advanced_check`, an error gives 2, a
    /// drive fault 1, no data request 3. The four alternate status reads
    /// and the wait while busy that come before are steps of the transfers
    /// (see `transfer.rs` and `packet_read.rs`).
    pub fn polling(&mut self, advanced_check: u32, state: u8) -> (res: Result<(), u8>)
        ensures
            *final(self) == *old(self),
            advanced_check == 0 ==> res is Ok,
            advanced_check != 0 ==> res == if state & STATUS_ERR != 0 {
                Err::<(), u8>(2)
            } else if state & STATUS_DF != 0 {
                Err(1)
            } else if state & STATUS_DRQ == 0 {
                Err(3)
            } else {
                Ok(())
            },
    {
        if advanced_check != 0 {
            if (state & STATUS_ERR) != 0 {
                return Err(2);
            }
            if (state & STATUS_DF) != 0 {
                return Err(1);
            }
            if (state & STATUS_DRQ) == 0 {
                return Err(3);
            }
        }
        Ok(())
    }
}

} // verus!
