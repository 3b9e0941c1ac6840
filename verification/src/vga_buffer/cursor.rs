//! The text-mode cursor: where the next character goes, in which colors,
//! and the register writes that show it.

use vstd::prelude::*;

use crate::io::{lemma_u16_bytes, PortWrite};
use crate::vga_buffer::color::ColorCode;
use crate::vga_buffer::BUFFER_WIDTH;

verus! {

/// The index port of the CRT controller.
pub const CRTC_INDEX: u16 = 0x3d4;

/// The data port of the CRT controller.
pub const CRTC_DATA: u16 = 0x3d5;

/// The cursor.
#[derive(Debug, Clone, Copy, PartialEq, Eq, Structural)]
pub struct Cursor {
    pub x: usize,
    pub y: usize,
    pub color_code: ColorCode,
}

/// The cell index of column `x` of row `y`, as the CRT controller counts.
pub open spec fn cell_index(x: int, y: int) -> int {
    y * 80 + x
}

/// The writes that move the hardware cursor to the cell of `c`.
pub open spec fn cursor_writes(c: Cursor) -> Seq<PortWrite> {
    seq![
        PortWrite { port: CRTC_INDEX, value: 0x0f },
        PortWrite { port: CRTC_DATA, value: (cell_index(c.x as int, c.y as int) % 256) as u8 },
        PortWrite { port: CRTC_INDEX, value: 0x0e },
        PortWrite { port: CRTC_DATA, value: (cell_index(c.x as int, c.y as int) / 256) as u8 },
    ]
}

impl Cursor {
    pub fn new(x: usize, y: usize, color_code: ColorCode) -> (res: Cursor)
        ensures
            res.x == x,
            res.y == y,
            res.color_code == color_code,
    {
        Cursor { x, y, color_code }
    }

    /// The writes that move the hardware cursor to the cell of the cursor:
    /// the low byte of its index in register 0x0f, the high byte in 0x0e.
    pub fn update(&self) -> (res: std::vec::Vec<PortWrite>)
        requires
            cell_index(self.x as int, self.y as int) <= u16::MAX,
        ensures
            res@ == cursor_writes(*self),
    {
        let pos: u16 = (self.y * BUFFER_WIDTH + self.x) as u16;
        proof {
            lemma_u16_bytes(pos);
        }
        let mut res = std::vec::Vec::new();
        res.push(PortWrite { port: CRTC_INDEX, value: 0x0f });
        res.push(PortWrite { port: CRTC_DATA, value: (pos & 0xff) as u8 });
        res.push(PortWrite { port: CRTC_INDEX, value: 0x0e });
        res.push(PortWrite { port: CRTC_DATA, value: ((pos >> 8) & 0xff) as u8 });
        res
    }

    /// The new values of the cursor start and end registers (0x0a and
    /// 0x0b) that show the cursor, from their values `start` and `end` as
    /// read: scanlines 14 to 15.
    pub fn enable(&self, start: u8, end: u8) -> (res: (u8, u8))
        ensures
            res.0 == (start & 0xc0) | 14,
            res.1 == (end & 0xe0) | 15,
    {
        ((start & 0xc0) | 14, (end & 0xe0) | 15)
    }

    /// The writes that hide the hardware cursor: bit 5 of register 0x0a.
    pub fn disable(&self) -> (res: std::vec::Vec<PortWrite>)
        ensures
            res@ == seq![PortWrite { port: CRTC_INDEX, value: 0x0a }, PortWrite { port: CRTC_DATA, value: 0x20 }],
    {
        let mut res = std::vec::Vec::new();
        res.push(PortWrite { port: CRTC_INDEX, value: 0x0a });
        res.push(PortWrite { port: CRTC_DATA, value: 0x20 });
        res
    }

    pub fn get_color_code(&self) -> (res: ColorCode)
        ensures
            res == self.color_code,
    {
        self.color_code
    }

    pub fn set_color_code(&mut self, color_code: ColorCode)
        ensures
            *final(self) == (Cursor { color_code, ..*old(self) }),
    {
        self.color_code = color_code;
    }

    /// The column and the row.
    pub fn get_pos(&self) -> (res: (usize, usize))
        ensures
            res == (self.x, self.y),
    {
        (self.x, self.y)
    }

    pub fn set_pos(&mut self, x: usize, y: usize)
        ensures
            *final(self) == (Cursor { x, y, ..*old(self) }),
    {
        self.x = x;
        self.y = y;
    }
}

} // verus!
