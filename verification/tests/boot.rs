use kfs::multiboot::{
    claim_multiboot, decode_tag, next_tag, read_tags, tag_at, tag_is_readable, tag_list, tag_text, MemMapEntry, TagHeader,
    TagInfo,
};

fn put32(buf: &mut Vec<u8>, v: u32) {
    buf.extend_from_slice(&v.to_le_bytes());
}

fn put64(buf: &mut Vec<u8>, v: u64) {
    buf.extend_from_slice(&v.to_le_bytes());
}

/// A boot information block: a command line, a memory map of three
/// entries (the second one reserved), then the end tag.
fn info() -> Vec<u8> {
    let mut b = Vec::new();
    put32(&mut b, 96);
    put32(&mut b, 0);
    // command line "hello", 8 + 6 bytes, padded to 16
    b.extend_from_slice(&[1, 0, 0, 0]);
    put32(&mut b, 14);
    b.extend_from_slice(b"hello\0");
    b.extend_from_slice(&[0, 0]);
    // memory map at 24
    b.extend_from_slice(&[6, 0, 0, 0]);
    put32(&mut b, 16 + 3 * 24);
    put32(&mut b, 24);
    put32(&mut b, 0);
    for (base, len, kind) in [(0u64, 0x9fc00u64, 1u32), (0x9fc00, 0x2400, 2), (0x100000, 0x7ee0000, 1)] {
        put64(&mut b, base);
        put64(&mut b, len);
        put32(&mut b, kind);
        put32(&mut b, 0);
    }
    // end tag
    b.extend_from_slice(&[0, 0, 0, 0]);
    put32(&mut b, 8);
    b
}

#[test]
fn multiboot_tag_header() {
    let b = info();
    assert_eq!(tag_at(&b, 8), TagHeader { htype: 1, flags: 0, size: 14 });
    assert_eq!(tag_at(&b, 24), TagHeader { htype: 6, flags: 0, size: 88 });
}

#[test]
fn multiboot_next_tag_aligns() {
    assert_eq!(next_tag(8, 14), 24);
    assert_eq!(next_tag(24, 88), 112);
    assert_eq!(next_tag(0, 8), 8);
    assert_eq!(next_tag(0, 9), 16);
}

#[test]
fn multiboot_tag_list() {
    let b = info();
    assert_eq!(tag_list(&b), vec![8, 24]);
}

#[test]
fn multiboot_command_line() {
    let b = info();
    assert_eq!(tag_text(&b, 8), b"hello".to_vec());
}

#[test]
fn multiboot_reserved_ranges() {
    let b = info();
    assert_eq!(claim_multiboot(&b), vec![(0x9fc00, 2)]);
}

#[test]
fn multiboot_without_memory_map() {
    let mut b = Vec::new();
    put32(&mut b, 16);
    put32(&mut b, 0);
    b.extend_from_slice(&[0, 0, 0, 0]);
    put32(&mut b, 8);
    assert_eq!(claim_multiboot(&b), Vec::<(u32, usize)>::new());
    assert_eq!(tag_list(&b), Vec::<usize>::new());
}

/// A block with basic memory info, a boot device, a frame buffer, an
/// ELF sections tag and an unknown tag, then the end tag.
fn other_info() -> Vec<u8> {
    let mut b = Vec::new();
    put32(&mut b, 0);
    put32(&mut b, 0);
    // basic memory info at 8
    b.extend_from_slice(&[4, 0, 0, 0]);
    put32(&mut b, 16);
    put32(&mut b, 639);
    put32(&mut b, 130048);
    // boot device at 24, 20 bytes, padded to 24
    b.extend_from_slice(&[5, 0, 0, 0]);
    put32(&mut b, 20);
    put32(&mut b, 0x80);
    put32(&mut b, 1);
    put32(&mut b, 0xffff_ffff);
    put32(&mut b, 0);
    // frame buffer at 48, 32 bytes
    b.extend_from_slice(&[8, 0, 0, 0]);
    put32(&mut b, 32);
    put64(&mut b, 0xb8000);
    put32(&mut b, 160);
    put32(&mut b, 80);
    put32(&mut b, 25);
    b.extend_from_slice(&[16, 2, 0, 0]);
    // ELF sections at 80
    b.extend_from_slice(&[9, 0, 0, 0]);
    put32(&mut b, 8);
    // unknown tag 13 at 88
    b.extend_from_slice(&[13, 0, 0, 0]);
    put32(&mut b, 8);
    // end tag
    b.extend_from_slice(&[0, 0, 0, 0]);
    put32(&mut b, 8);
    b
}

#[test]
fn multiboot_reads_text_and_memory_map() {
    let b = info();
    let tags = read_tags(&b);
    assert_eq!(tags.len(), 2);
    match &tags[0] {
        TagInfo::CmdLine(text) => assert_eq!(text, &b"hello".to_vec()),
        other => panic!("unexpected {:?}", other),
    }
    match &tags[1] {
        TagInfo::Mmap(entries) => {
            assert_eq!(entries.len(), 3);
            assert_eq!(entries[1], MemMapEntry { baseaddr: 0x9fc00, length: 0x2400, mtype: 2, reserved: 0 });
            assert_eq!(entries[2].baseaddr, 0x100000);
        },
        other => panic!("unexpected {:?}", other),
    }
}

#[test]
fn multiboot_reads_other_tags() {
    let b = other_info();
    assert_eq!(tag_list(&b), vec![8, 24, 48, 80, 88]);
    let tags = read_tags(&b);
    assert_eq!(tags.len(), 5);
    assert!(matches!(tags[0], TagInfo::BasicMemInfo { mem_lower: 639, mem_upper: 130048 }));
    assert!(matches!(tags[1], TagInfo::BootDev { biosdev: 0x80, partition: 1, sub_partition: 0xffff_ffff }));
    assert!(matches!(
        tags[2],
        TagInfo::FrameBuffer { addr: 0xb8000, pitch: 160, width: 80, height: 25, bpp: 16, ftype: 2, reserved: 0 }
    ));
    assert!(matches!(tags[3], TagInfo::Skipped(9)));
    assert!(matches!(tags[4], TagInfo::Other(TagHeader { htype: 13, flags: 0, size: 8 })));
}

#[test]
fn multiboot_unreadable_tags_are_found() {
    let mut b = info();
    assert!(tag_is_readable(&b, 8));
    assert!(tag_is_readable(&b, 24));
    // an entry size of 0
    b[32] = 0;
    assert!(!tag_is_readable(&b, 24));
    // a command line too short for its nul byte
    b[12] = 8;
    assert!(!tag_is_readable(&b, 8));
    assert!(!tag_is_readable(&b, 200));
    match decode_tag(&other_info(), 8) {
        TagInfo::BasicMemInfo { mem_lower, .. } => assert_eq!(mem_lower, 639),
        other => panic!("unexpected {:?}", other),
    }
}
