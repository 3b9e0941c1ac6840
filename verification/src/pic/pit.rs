//! The programmable interval timer and the PC speaker, as port writes.

use vstd::prelude::*;

use crate::io::{lemma_u16_bytes, PortWrite};

verus! {

/// Data port of channel 0.
pub const CHAN0_DATA: u16 = 0x40;

/// Data port of channel 1.
pub const CHAN1_DATA: u16 = 0x41;

/// Data port of channel 2.
pub const CHAN2_DATA: u16 = 0x42;

/// The mode/command register.
pub const MODE_CMD: u16 = 0x43;

pub const CHANNEL_0: u8 = 0x00;

pub const CHANNEL_1: u8 = 0x40;

pub const CHANNEL_2: u8 = 0x80;

pub const READBACK: u8 = 0xc0;

pub const ACC_LATCHCOUNT: u8 = 0x00;

pub const ACC_LOBONLY: u8 = 0x10;

pub const ACC_HIBONLY: u8 = 0x20;

pub const ACC_LOBHIB: u8 = 0x30;

pub const MODE_0: u8 = 0x0;

pub const MODE_1: u8 = 0x2;

pub const MODE_2: u8 = 0x4;

pub const MODE_3: u8 = 0x6;

pub const MODE_4: u8 = 0x8;

pub const MODE_5: u8 = 0xa;

pub const MODE_6: u8 = 0x4;

pub const MODE_7: u8 = 0x6;

/// The speaker control port.
pub const SPEAKER_PORT: u16 = 0x61;

/// The data port of `channel` (one of the three channel selectors).
pub open spec fn channel_port(channel: u8) -> u16 {
    if channel == CHANNEL_0 {
        CHAN0_DATA
    } else if channel == CHANNEL_1 {
        CHAN1_DATA
    } else {
        CHAN2_DATA
    }
}

/// The writes that program `channel` (CHANNEL_0, CHANNEL_1 or CHANNEL_2)
/// with `access` and `mode`, then give it `data`, low byte first.
pub fn set_pit(channel: u8, access: u8, mode: u8, data: u16) -> (res: std::vec::Vec<PortWrite>)
    requires
        channel == CHANNEL_0 || channel == CHANNEL_1 || channel == CHANNEL_2,
    ensures
        res@ == seq![
            PortWrite { port: MODE_CMD, value: channel | access | mode },
            PortWrite { port: channel_port(channel), value: (data % 256) as u8 },
            PortWrite { port: channel_port(channel), value: (data / 256) as u8 },
        ],
{
    let port: u16 = if channel == CHANNEL_0 {
        CHAN0_DATA
    } else if channel == CHANNEL_1 {
        CHAN1_DATA
    } else {
        CHAN2_DATA
    };
    proof {
        lemma_u16_bytes(data);
    }
    let mut res = std::vec::Vec::new();
    res.push(PortWrite { port: MODE_CMD, value: channel | access | mode });
    res.push(PortWrite { port, value: (data & 0xff) as u8 });
    res.push(PortWrite { port, value: ((data & 0xff00) >> 8) as u8 });
    res
}

/// The write that connects the speaker to channel 2 (bits 0 and 1 of the
/// control port), from the value `current` read there; none when both bits
/// are already set.
pub fn speaker_on(current: u8) -> (res: Option<PortWrite>)
    ensures
        current & 3 == 3 ==> res is None,
        current & 3 != 3 ==> res == Some(PortWrite { port: SPEAKER_PORT, value: current | 3 }),
{
    proof {
        assert((current != (current | 3u8)) == (current & 3u8 != 3u8)) by (bit_vector);
    }
    if current != (current | 3) {
        Some(PortWrite { port: SPEAKER_PORT, value: current | 3 })
    } else {
        None
    }
}

/// The write that disconnects the speaker, from the value `current` read
/// from the control port.
pub fn speaker_off(current: u8) -> (res: PortWrite)
    ensures
        res == (PortWrite { port: SPEAKER_PORT, value: current & 0xfc }),
{
    PortWrite { port: SPEAKER_PORT, value: current & 0xfc }
}

} // verus!
