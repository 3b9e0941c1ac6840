use kfs::vga_buffer::hexdump;
use kfs::io::PortWrite;
use kfs::vga_buffer::color::{Color, ColorCode};
use kfs::vga_buffer::cursor::Cursor;
use kfs::vga_buffer::{Screen, Writer};

#[test]
fn color_codes() {
    assert_eq!(ColorCode::new(Color::White, Color::Black), ColorCode(0x0f));
    assert_eq!(ColorCode::new(Color::Red, Color::Blue), ColorCode(0x14));
    assert_eq!(ColorCode::new(Color::Yellow, Color::White), ColorCode(0xfe));
}

#[test]
fn cursor_register_writes() {
    let c = Cursor::new(5, 2, ColorCode(0x0f));
    assert_eq!(c.get_pos(), (5, 2));
    let w = c.update();
    assert_eq!(
        w,
        vec![
            PortWrite { port: 0x3d4, value: 0x0f },
            PortWrite { port: 0x3d5, value: 165 },
            PortWrite { port: 0x3d4, value: 0x0e },
            PortWrite { port: 0x3d5, value: 0 },
        ]
    );
    let far = Cursor::new(79, 24, ColorCode(0x0f));
    let w = far.update();
    assert_eq!(w[1].value, 0xcf);
    assert_eq!(w[3].value, 0x07);
    assert_eq!(c.disable(), vec![PortWrite { port: 0x3d4, value: 0x0a }, PortWrite { port: 0x3d5, value: 0x20 }]);
    assert_eq!(c.enable(0xff, 0xff), (0xce, 0xef));
}

#[test]
fn writer_writes_and_wraps() {
    let mut w = Writer::new();
    w.write_string("hi\n");
    assert_eq!(w.cursor().get_pos(), (0, 1));
    w.write_byte(b'x');
    assert_eq!(w.cursor().get_pos(), (1, 1));
    w.write_byte(0x08);
    assert_eq!(w.cursor().get_pos(), (0, 1));
    w.write_byte(0x08);
    assert_eq!(w.cursor().get_pos(), (79, 0));
    for _ in 0..30 {
        w.write_byte(b'\n');
    }
    assert_eq!(w.cursor().get_pos(), (0, 24));
    assert_eq!(w.get_screen(), 0);
}

#[test]
fn writer_full_row_moves_to_next() {
    let mut w = Writer::new();
    for _ in 0..80 {
        w.write_byte(b'a');
    }
    assert_eq!(w.cursor().get_pos(), (80, 0));
    w.write_byte(b'b');
    assert_eq!(w.cursor().get_pos(), (1, 1));
    w.chcolor(ColorCode(0x04));
    assert_eq!(w.cursor().get_color_code(), ColorCode(0x04));
}

#[test]
fn writer_changes_screen() {
    let mut w = Writer::new();
    let mut screens = vec![Screen::new(), Screen::new(), Screen::new()];
    w.write_string("abc");
    w.change_screen(1, &mut screens);
    assert_eq!(w.get_screen(), 1);
    assert_eq!(w.cursor().get_pos(), (3, 0));
    w.change_screen(0, &mut screens);
    assert_eq!(w.get_screen(), 0);
    assert_eq!(w.cursor().get_pos(), (3, 0));
    let mut s = Screen::new();
    s.reset();
}

#[test]
fn hexdump_lines() {
    let text = hexdump(0x1000, b"ABCDEFGHIJKLMNOP\x00Q\x7f");
    assert_eq!(
        String::from_utf8(text).unwrap(),
        "00001000: 4142 4344 4546 4748 494a 4b4c 4d4e 4f50 ABCDEFGHIJKLMNOP\n00001010: 0051 7f                                 .Q.\n"
    );
    assert!(hexdump(0x20, b"").is_empty());
    assert_eq!(String::from_utf8(hexdump(0x123456789, b"a")).unwrap(), format!("123456789: 61{}a\n", " ".repeat(38)));
}

#[test]
fn writer_echoes_bytes_to_serial() {
    let mut w = Writer::new();
    let writes = w.write_byte(b'x');
    assert_eq!(writes[0], PortWrite { port: 0x3f8, value: b'x' });
    // the hardware cursor then moves to cell 1
    assert_eq!(
        writes[1..].to_vec(),
        vec![
            PortWrite { port: 0x3d4, value: 0x0f },
            PortWrite { port: 0x3d5, value: 1 },
            PortWrite { port: 0x3d4, value: 0x0e },
            PortWrite { port: 0x3d5, value: 0 },
        ]
    );
    assert_eq!(w.write_byte(b'\n'), vec![PortWrite { port: 0x3f8, value: b'\n' }]);
    let writes = w.write_string("ab");
    assert_eq!(writes.len(), 10);
    assert_eq!(writes[0], PortWrite { port: 0x3f8, value: b'a' });
    assert_eq!(writes[5], PortWrite { port: 0x3f8, value: b'b' });
}
