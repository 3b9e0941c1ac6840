//! The text-mode screen: a grid of colored characters written like a
//! terminal, and the screens kept aside to switch between.

use vstd::prelude::*;
use vstd::string::StringSliceAdditionalSpecFns;

pub mod color;
pub mod cursor;
pub mod dump;

pub use crate::vga_buffer::dump::hexdump;

use crate::vga_buffer::color::{default_color, ColorCode};
use crate::vga_buffer::cursor::{cursor_writes, Cursor};
use crate::io::PortWrite;

verus! {

pub const BUFFER_HEIGHT: usize = 25;

pub const BUFFER_WIDTH: usize = 80;

/// The number of cells of a screen.
pub const BUFFER_CELLS: usize = 2000;

/// The number of screens to switch between.
pub const NB_SCREEN: usize = 3;

/// One cell: a character and its colors.
#[derive(Debug, Clone, Copy, PartialEq, Eq, Structural)]
pub struct ScreenChar {
    pub ascii_code: u8,
    pub color_code: ColorCode,
}

/// The cell holding `code` white on black.
pub open spec fn plain_cell(code: u8) -> ScreenChar {
    ScreenChar { ascii_code: code, color_code: default_color() }
}

/// A row of spaces, white on black.
pub open spec fn blank_row() -> Seq<ScreenChar> {
    Seq::new(80, |i: int| plain_cell(0x20))
}

/// What a writer shows: its cells row by row, its cursor and the number of
/// its screen.
pub struct WriterView {
    pub cells: Seq<ScreenChar>,
    pub cursor: Cursor,
    pub screen_index: usize,
}

/// A screen of cells with the cursor inside it.
pub open spec fn screen_wf(cells: Seq<ScreenChar>, cursor: Cursor) -> bool {
    &&& cells.len() == 2000
    &&& cursor.y < 25
    &&& cursor.x <= 80
}

/// The cursor at column `x` of row `y`, colors kept.
pub open spec fn moved(c: Cursor, x: int, y: int) -> Cursor {
    Cursor { x: x as usize, y: y as usize, color_code: c.color_code }
}

/// After a line feed: the cursor at the start of the next row; on the last
/// row every row moves up one and the last row becomes blank.
pub open spec fn new_line_view(v: WriterView) -> WriterView {
    if v.cursor.y != 24 {
        WriterView { cursor: moved(v.cursor, 0, v.cursor.y + 1), ..v }
    } else {
        WriterView { cells: v.cells.subrange(80, 2000) + blank_row(), cursor: moved(v.cursor, 0, 24), ..v }
    }
}

/// A line feed keeps the screen's cells off the last row and moves the
/// cursor to the start of the next row. On the last row it scrolls: cell
/// `k` of the screen (below 1920) is then cell `k + 80` of the screen
/// before, the last row holds spaces, and the cursor is at the start of
/// that row.
pub proof fn lemma_line_feed_scrolls(v: WriterView)
    requires
        screen_wf(v.cells, v.cursor),
    ensures
        ({
            let w = byte_view(v, 10);
            &&& w.cells.len() == 2000
            &&& w.cursor.x == 0
            &&& w.cursor.color_code == v.cursor.color_code
            &&& w.screen_index == v.screen_index
            &&& v.cursor.y < 24 ==> w.cells == v.cells && w.cursor.y == v.cursor.y + 1
            &&& v.cursor.y == 24 ==> {
                &&& w.cursor.y == 24
                &&& forall|k: int| 0 <= k < 1920 ==> #[trigger] w.cells[k] == v.cells[k + 80]
                &&& forall|k: int| 1920 <= k < 2000 ==> #[trigger] w.cells[k] == plain_cell(0x20)
            }
        }),
{
    let w = byte_view(v, 10);
    if v.cursor.y == 24 {
        assert forall|k: int| 0 <= k < 1920 implies #[trigger] w.cells[k] == v.cells[k + 80] by {
            assert(w.cells[k] == v.cells.subrange(80, 2000)[k]);
        }
        assert forall|k: int| 1920 <= k < 2000 implies #[trigger] w.cells[k] == plain_cell(0x20) by {
            assert(w.cells[k] == blank_row()[k - 1920]);
        }
    }
}

/// A byte other than a line feed or a backspace goes in the cell under
/// the cursor, in the cursor's colors, and the cursor moves one cell right;
/// no other cell changes. A full row first takes a line feed.
pub proof fn lemma_byte_goes_under_cursor(v: WriterView, byte: u8)
    requires
        screen_wf(v.cells, v.cursor),
        v.cursor.x < 80,
        byte != 10,
        byte != 8,
    ensures
        ({
            let w = byte_view(v, byte);
            let at = v.cursor.y * 80 + v.cursor.x;
            &&& w.cells.len() == 2000
            &&& w.cells[at] == (ScreenChar { ascii_code: byte, color_code: v.cursor.color_code })
            &&& forall|k: int| 0 <= k < 2000 && k != at ==> #[trigger] w.cells[k] == v.cells[k]
            &&& w.cursor.x == v.cursor.x + 1
            &&& w.cursor.y == v.cursor.y
        }),
{
}

/// After writing `byte`: a line feed moves to the next row; a backspace
/// (0x08) steps back one cell, to the end of the row above from the start of
/// a row, and blanks that cell with a 0; any other byte goes in the cell of
/// the cursor, after a line feed when the row is full, and the cursor
/// moves right.
pub open spec fn byte_view(v: WriterView, byte: u8) -> WriterView {
    if byte == 10 {
        new_line_view(v)
    } else if byte == 8 {
        let x = v.cursor.x;
        let y = v.cursor.y;
        let to = if x != 0 {
            moved(v.cursor, x - 1, y as int)
        } else if y != 0 {
            moved(v.cursor, 79, y - 1)
        } else {
            v.cursor
        };
        WriterView {
            cells: v.cells.update(to.y * 80 + to.x, ScreenChar { ascii_code: 0, color_code: v.cursor.color_code }),
            cursor: to,
            ..v
        }
    } else {
        let w = if v.cursor.x >= 80 {
            new_line_view(v)
        } else {
            v
        };
        WriterView {
            cells: w.cells.update(
                w.cursor.y * 80 + w.cursor.x,
                ScreenChar { ascii_code: byte, color_code: w.cursor.color_code },
            ),
            cursor: moved(w.cursor, w.cursor.x + 1, w.cursor.y as int),
            ..w
        }
    }
}

/// The byte written for `byte` by `write_string`: printable ASCII and line
/// feeds as they are, anything else as a square (0xfe).
pub open spec fn shown_byte(byte: u8) -> u8 {
    if (0x20 <= byte && byte <= 0x7e) || byte == 10 {
        byte
    } else {
        0xfe
    }
}

/// After writing each of `bytes` in turn.
pub open spec fn bytes_view(v: WriterView, bytes: Seq<u8>) -> WriterView
    decreases bytes.len(),
{
    if bytes.len() == 0 {
        v
    } else {
        byte_view(bytes_view(v, bytes.drop_last()), bytes.last())
    }
}

/// The serial port that echoes every byte written to the screen.
pub const SERIAL_PORT: u16 = 0x3f8;

/// The port writes of writing `byte` on `v`: the byte echoed to the serial
/// port, then, but for a line feed, the hardware cursor moved to the new
/// cursor.
pub open spec fn byte_writes(v: WriterView, byte: u8) -> Seq<PortWrite> {
    seq![PortWrite { port: SERIAL_PORT, value: byte }] + if byte == 10 {
        Seq::<PortWrite>::empty()
    } else {
        cursor_writes(byte_view(v, byte).cursor)
    }
}

/// The port writes of writing each of `bytes` in turn on `v`.
pub open spec fn bytes_writes(v: WriterView, bytes: Seq<u8>) -> Seq<PortWrite>
    decreases bytes.len(),
{
    if bytes.len() == 0 {
        Seq::empty()
    } else {
        bytes_writes(v, bytes.drop_last()) + byte_writes(bytes_view(v, bytes.drop_last()), bytes.last())
    }
}

/// After writing the string of `bytes`.
pub open spec fn string_view(v: WriterView, bytes: Seq<u8>) -> WriterView {
    bytes_view(v, bytes.map_values(|b: u8| shown_byte(b)))
}

/// The prompt written on a fresh screen.
pub open spec fn prompt() -> Seq<u8> {
    seq![36u8, 62u8, 32u8]
}

proof fn lemma_new_line_wf(v: WriterView)
    requires
        screen_wf(v.cells, v.cursor),
    ensures
        screen_wf(new_line_view(v).cells, new_line_view(v).cursor),
        new_line_view(v).screen_index == v.screen_index,
        new_line_view(v).cursor.x == 0,
{
}

proof fn lemma_byte_wf(v: WriterView, byte: u8)
    requires
        screen_wf(v.cells, v.cursor),
    ensures
        screen_wf(byte_view(v, byte).cells, byte_view(v, byte).cursor),
        byte_view(v, byte).screen_index == v.screen_index,
{
    lemma_new_line_wf(v);
}

proof fn lemma_bytes_wf(v: WriterView, bytes: Seq<u8>)
    requires
        screen_wf(v.cells, v.cursor),
    ensures
        screen_wf(bytes_view(v, bytes).cells, bytes_view(v, bytes).cursor),
        bytes_view(v, bytes).screen_index == v.screen_index,
    decreases bytes.len(),
{
    if bytes.len() > 0 {
        lemma_bytes_wf(v, bytes.drop_last());
        lemma_byte_wf(bytes_view(v, bytes.drop_last()), bytes.last());
    }
}

/// A copy of the cells.
fn copy_cells(cells: &std::vec::Vec<ScreenChar>) -> (res: std::vec::Vec<ScreenChar>)
    ensures
        res@ == cells@,
{
    let mut res = std::vec::Vec::new();
    let mut i: usize = 0;
    while i < cells.len()
        invariant
            i <= cells@.len(),
            res@ == cells@.take(i as int),
        decreases cells@.len() - i,
    {
        res.push(cells[i]);
        assert(cells@.take(i + 1) =~= cells@.take(i as int).push(cells@[i as int]));
        i += 1;
    }
    assert(cells@.take(cells@.len() as int) =~= cells@);
    res
}

/// A screen kept aside: its cells and its cursor.
pub struct Screen {
    cursor: Cursor,
    buffer: std::vec::Vec<ScreenChar>,
}

impl Screen {
    pub closed spec fn cells(&self) -> Seq<ScreenChar> {
        self.buffer@
    }

    pub closed spec fn cursor(&self) -> Cursor {
        self.cursor
    }

    pub open spec fn wf(&self) -> bool {
        screen_wf(self.cells(), self.cursor())
    }

    /// A screen of zero bytes, white on black, the cursor at the top left.
    pub fn new() -> (res: Screen)
        ensures
            res.wf(),
            res.cells() == Seq::new(2000, |i: int| plain_cell(0)),
            res.cursor() == (Cursor { x: 0, y: 0, color_code: default_color() }),
    {
        let code = ColorCode::new(color::Color::White, color::Color::Black);
        let mut buffer = std::vec::Vec::new();
        let mut i: usize = 0;
        while i < BUFFER_CELLS
            invariant
                i <= 2000,
                code == default_color(),
                buffer@ == Seq::new(i as nat, |k: int| plain_cell(0)),
            decreases 2000 - i,
        {
            buffer.push(ScreenChar { ascii_code: 0, color_code: code });
            assert(buffer@ =~= Seq::new((i + 1) as nat, |k: int| plain_cell(0)));
            i += 1;
        }
        Screen { cursor: Cursor::new(0, 0, code), buffer }
    }

    /// Fills the screen with spaces, white on black, and puts the cursor at
    /// the top left.
    pub fn reset(&mut self)
        requires
            old(self).wf(),
        ensures
            final(self).wf(),
            final(self).cells() == Seq::new(2000, |i: int| plain_cell(0x20)),
            final(self).cursor() == moved(old(self).cursor(), 0, 0),
    {
        let code = ColorCode::new(color::Color::White, color::Color::Black);
        let mut i: usize = 0;
        while i < BUFFER_CELLS
            invariant
                i <= 2000,
                code == default_color(),
                self.buffer@.len() == 2000,
                forall|k: int| 0 <= k < i ==> self.buffer@[k] == plain_cell(0x20),
                self.cursor == old(self).cursor,
            decreases 2000 - i,
        {
            self.buffer.set(i, ScreenChar { ascii_code: 0x20, color_code: code });
            i += 1;
        }
        self.cursor.set_pos(0, 0);
        assert(self.buffer@ =~= Seq::new(2000, |i: int| plain_cell(0x20)));
    }
}

/// A writer onto the screen shown.
pub struct Writer {
    screen_index: usize,
    cursor: Cursor,
    vga_buffer: std::vec::Vec<ScreenChar>,
}

impl View for Writer {
    type V = WriterView;

    closed spec fn view(&self) -> WriterView {
        WriterView { cells: self.vga_buffer@, cursor: self.cursor, screen_index: self.screen_index }
    }
}

/// `v` showing screen `nb` instead, with `screens` the kept screens
/// before and `after` those after: the shown one is kept in its place, the
/// others stay, and screen `nb` is shown, with the prompt written when its
/// cursor is at the top left.
pub open spec fn screen_changed(
    v: WriterView,
    screens: Seq<Screen>,
    nb: usize,
    w: WriterView,
    after: Seq<Screen>,
) -> bool {
    let shown = after[nb as int];
    let base = WriterView { cells: shown.cells(), cursor: shown.cursor(), screen_index: nb };
    &&& after.len() == screens.len()
    &&& forall|i: int| 0 <= i < NB_SCREEN && i != v.screen_index ==> #[trigger] after[i] == screens[i]
    &&& after[v.screen_index as int].cells() == v.cells
    &&& after[v.screen_index as int].cursor() == v.cursor
    &&& w == if shown.cursor().x == 0 && shown.cursor().y == 0 {
        bytes_view(base, prompt())
    } else {
        base
    }
}

/// Changing to another screen and back gives back the screen as it was,
/// when its cursor is not at the top left (where the prompt would be
/// written again).
pub proof fn lemma_change_screen_round_trip(
    v: WriterView,
    screens: Seq<Screen>,
    nb: usize,
    v1: WriterView,
    screens1: Seq<Screen>,
    v2: WriterView,
    screens2: Seq<Screen>,
)
    requires
        v.screen_index < NB_SCREEN,
        nb < NB_SCREEN,
        nb != v.screen_index,
        screens.len() == NB_SCREEN,
        !(v.cursor.x == 0 && v.cursor.y == 0),
        screen_changed(v, screens, nb, v1, screens1),
        screen_changed(v1, screens1, v.screen_index, v2, screens2),
    ensures
        v2 == v,
{
    let a = v.screen_index as int;
    let p = prompt();
    assert(p.drop_last().drop_last().drop_last() =~= Seq::<u8>::empty());
    reveal_with_fuel(bytes_view, 4);
    assert(v1.screen_index == nb);
    assert(screens2[a] == screens1[a]);
}

impl Writer {
    pub open spec fn wf(&self) -> bool {
        &&& screen_wf(self@.cells, self@.cursor)
        &&& self@.screen_index < NB_SCREEN
    }

    /// A writer on screen 0, all spaces white on black, the cursor at the
    /// top left.
    pub fn new() -> (res: Writer)
        ensures
            res.wf(),
            res@.cells == Seq::new(2000, |i: int| plain_cell(0x20)),
            res@.cursor == (Cursor { x: 0, y: 0, color_code: default_color() }),
            res@.screen_index == 0,
    {
        let mut s = Screen::new();
        s.reset();
        Writer { screen_index: 0, cursor: s.cursor, vga_buffer: s.buffer }
    }

    /// Writes `byte` at the cursor, and gives the port writes that echo it
    /// to the serial port and move the hardware cursor.
    pub fn write_byte(&mut self, byte: u8) -> (res: std::vec::Vec<PortWrite>)
        requires
            old(self).wf(),
        ensures
            final(self).wf(),
            final(self)@ == byte_view(old(self)@, byte),
            res@ == byte_writes(old(self)@, byte),
    {
        proof {
            lemma_byte_wf(self@, byte);
        }
        let mut res = std::vec::Vec::new();
        res.push(PortWrite { port: SERIAL_PORT, value: byte });
        if byte == 10u8 {
            self.new_line();
            res
        } else {
            let mut code = byte;
            let mut pos: (usize, usize) = self.cursor.get_pos();
            if byte == 0x08 {
                if pos.0 != 0 {
                    pos.0 = pos.0 - 1;
                } else if pos.1 != 0 {
                    pos.1 = pos.1 - 1;
                    pos.0 = 79;
                }
                code = 0x0;
            } else if pos.0 >= BUFFER_WIDTH {
                self.new_line();
                pos = self.cursor.get_pos();
            }
            let screenchar = ScreenChar { ascii_code: code, color_code: self.cursor.get_color_code() };
            self.vga_buffer.set(pos.1 * BUFFER_WIDTH + pos.0, screenchar);
            if byte != 0x08 {
                pos.0 = pos.0 + 1;
            }
            self.cursor.set_pos(pos.0, pos.1);
            proof {
                assert(self@ == byte_view(old(self)@, byte));
                assert(self.cursor == self@.cursor);
            }
            let moves = self.cursor.update();
            let mut i: usize = 0;
            while i < moves.len()
                invariant
                    i <= moves@.len(),
                    res@ == seq![PortWrite { port: SERIAL_PORT, value: byte }] + moves@.take(i as int),
                decreases moves@.len() - i,
            {
                res.push(moves[i]);
                assert(moves@.take(i + 1) =~= moves@.take(i as int).push(moves@[i as int]));
                i += 1;
            }
            assert(moves@.take(moves@.len() as int) =~= moves@);
            res
        }
    }

    /// Moves the cursor to the start of the next row, scrolling on the last.
    fn new_line(&mut self)
        requires
            old(self).wf(),
        ensures
            final(self).wf(),
            final(self)@ == new_line_view(old(self)@),
    {
        let pos: (usize, usize) = self.cursor.get_pos();
        let mut y = pos.1;
        if pos.1 != BUFFER_HEIGHT - 1 {
            y += 1;
        } else {
            let mut i: usize = BUFFER_WIDTH;
            while i < BUFFER_CELLS
                invariant
                    80 <= i <= 2000,
                    self.vga_buffer@.len() == 2000,
                    self.cursor == old(self).cursor,
                    self.screen_index == old(self).screen_index,
                    forall|k: int| 0 <= k < i - 80 ==> self.vga_buffer@[k] == old(self).vga_buffer@[k + 80],
                    forall|k: int| i - 80 <= k < 2000 ==> self.vga_buffer@[k] == old(self).vga_buffer@[k],
                decreases 2000 - i,
            {
                let c = self.vga_buffer[i];
                self.vga_buffer.set(i - BUFFER_WIDTH, c);
                i += 1;
            }
            self.clear_row(BUFFER_HEIGHT - 1);
            assert(self.vga_buffer@ =~= old(self).vga_buffer@.subrange(80, 2000) + blank_row());
        }
        self.cursor.set_pos(0, y);
    }

    /// Fills row `row` with spaces, white on black.
    pub fn clear_row(&mut self, row: usize)
        requires
            old(self).wf(),
            row < 25,
        ensures
            final(self).wf(),
            final(self)@ == (WriterView {
                cells: old(self)@.cells.subrange(0, row * 80) + blank_row() + old(self)@.cells.subrange(
                    row * 80 + 80,
                    2000,
                ),
                ..old(self)@
            }),
    {
        let code = ColorCode::new(color::Color::White, color::Color::Black);
        let mut i: usize = 0;
        while i < BUFFER_WIDTH
            invariant
                i <= 80,
                row < 25,
                code == default_color(),
                self.vga_buffer@.len() == 2000,
                self.cursor == old(self).cursor,
                self.screen_index == old(self).screen_index,
                forall|k: int| 0 <= k < row * 80 ==> self.vga_buffer@[k] == old(self).vga_buffer@[k],
                forall|k: int| row * 80 <= k < row * 80 + i ==> self.vga_buffer@[k] == plain_cell(0x20),
                forall|k: int| row * 80 + i <= k < 2000 ==> self.vga_buffer@[k] == old(self).vga_buffer@[k],
            decreases 80 - i,
        {
            self.vga_buffer.set(row * BUFFER_WIDTH + i, ScreenChar { ascii_code: 0x20, color_code: code });
            i += 1;
        }
        assert(self.vga_buffer@ =~= old(self)@.cells.subrange(0, row * 80) + blank_row() + old(self)@.cells.subrange(
            row * 80 + 80,
            2000,
        ));
    }

    /// Writes each of `bytes` in turn, giving their port writes.
    fn write_bytes(&mut self, bytes: &[u8]) -> (res: std::vec::Vec<PortWrite>)
        requires
            old(self).wf(),
        ensures
            final(self).wf(),
            final(self)@ == bytes_view(old(self)@, bytes@),
            res@ == bytes_writes(old(self)@, bytes@),
    {
        let mut res = std::vec::Vec::new();
        let mut i: usize = 0;
        while i < bytes.len()
            invariant
                self.wf(),
                i <= bytes@.len(),
                self@ == bytes_view(old(self)@, bytes@.take(i as int)),
                res@ == bytes_writes(old(self)@, bytes@.take(i as int)),
            decreases bytes@.len() - i,
        {
            let mut w = self.write_byte(bytes[i]);
            res.append(&mut w);
            assert(bytes@.take(i + 1).drop_last() =~= bytes@.take(i as int));
            i += 1;
        }
        assert(bytes@.take(bytes@.len() as int) =~= bytes@);
        res
    }

    /// Writes the bytes of `s`, printable ASCII and line feeds as they are,
    /// anything else as a square; gives the port writes of each byte in
    /// turn.
    pub fn write_string(&mut self, s: &str) -> (res: std::vec::Vec<PortWrite>)
        requires
            old(self).wf(),
        ensures
            final(self).wf(),
            final(self)@ == string_view(old(self)@, s.spec_bytes()),
            res@ == bytes_writes(old(self)@, s.spec_bytes().map_values(|b: u8| shown_byte(b))),
    {
        let bytes = s.as_bytes();
        let ghost shown = bytes@.map_values(|b: u8| shown_byte(b));
        let mut res = std::vec::Vec::new();
        let mut i: usize = 0;
        while i < bytes.len()
            invariant
                self.wf(),
                i <= bytes@.len(),
                shown == bytes@.map_values(|b: u8| shown_byte(b)),
                self@ == bytes_view(old(self)@, shown.take(i as int)),
                res@ == bytes_writes(old(self)@, shown.take(i as int)),
            decreases bytes@.len() - i,
        {
            let byte = bytes[i];
            let mut w = if (0x20 <= byte && byte <= 0x7e) || byte == 10u8 {
                self.write_byte(byte)
            } else {
                self.write_byte(0xfe)
            };
            res.append(&mut w);
            assert(shown.take(i + 1).drop_last() =~= shown.take(i as int));
            i += 1;
        }
        assert(shown.take(bytes@.len() as int) =~= shown);
        res
    }

    /// Keeps the shown screen aside in `screens`, shows screen `nb` instead,
    /// and writes the prompt when its cursor is at the top left; gives the
    /// port writes of that prompt.
    pub fn change_screen(&mut self, nb: usize, screens: &mut std::vec::Vec<Screen>) -> (res: std::vec::Vec<PortWrite>)
        requires
            old(self).wf(),
            nb < NB_SCREEN,
            old(screens)@.len() == NB_SCREEN,
            forall|i: int| 0 <= i < NB_SCREEN ==> #[trigger] old(screens)@[i].wf(),
        ensures
            final(self).wf(),
            final(screens)@.len() == NB_SCREEN,
            forall|i: int| 0 <= i < NB_SCREEN ==> #[trigger] final(screens)@[i].wf(),
            screen_changed(old(self)@, old(screens)@, nb, final(self)@, final(screens)@),
            ({
                let shown = final(screens)@[nb as int];
                let base = WriterView { cells: shown.cells(), cursor: shown.cursor(), screen_index: nb };
                &&& res@ == if shown.cursor().x == 0 && shown.cursor().y == 0 {
                    bytes_writes(base, prompt())
                } else {
                    Seq::<PortWrite>::empty()
                }
            }),
    {
        let idx = self.screen_index;
        let saved = Screen { cursor: self.cursor, buffer: copy_cells(&self.vga_buffer) };
        screens.set(idx, saved);
        self.screen_index = nb;
        self.vga_buffer = copy_cells(&screens[nb].buffer);
        self.cursor = screens[nb].cursor;
        proof {
            assert(screens@[idx as int].wf());
            if nb != idx {
                assert(old(screens)@[nb as int].wf());
            }
            assert(screens@[nb as int].wf());
            assert forall|i: int| 0 <= i < NB_SCREEN implies #[trigger] screens@[i].wf() by {
                if i != idx {
                    assert(old(screens)@[i].wf());
                }
            }
        }
        let pos = self.cursor.get_pos();
        if pos.0 == 0 && pos.1 == 0 {
            let p: [u8; 3] = [36u8, 62u8, 32u8];
            assert(p@ =~= prompt());
            self.write_bytes(&p)
        } else {
            std::vec::Vec::new()
        }
    }

    /// The number of the screen shown.
    pub fn get_screen(&mut self) -> (res: usize)
        ensures
            res == old(self)@.screen_index,
            *final(self) == *old(self),
    {
        self.screen_index
    }

    /// Writes in `new_color` from now on.
    pub fn chcolor(&mut self, new_color: ColorCode)
        requires
            old(self).wf(),
        ensures
            final(self).wf(),
            final(self)@ == (WriterView {
                cursor: Cursor { color_code: new_color, ..old(self)@.cursor },
                ..old(self)@
            }),
    {
        self.cursor.set_color_code(new_color);
    }

    /// The cursor, for its register writes.
    pub fn cursor(&self) -> (res: Cursor)
        ensures
            res == self@.cursor,
    {
        self.cursor
    }
}

} // verus!
