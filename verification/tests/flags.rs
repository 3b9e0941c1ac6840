use kfs::utils::flags::{FlagOp, Flags};
use kfs::utils::math::roundup;

#[test]
fn test_flag_toggle() {
    let mut flags = Flags::<u8>::default();
    assert_eq!(flags.0, 0);
    for i in 0..8u8 {
        assert_eq!(flags.0 & (1 << i), 0);
        flags.toggle(i);
        assert_eq!(flags.0 & (1 << i), 1 << i);
        flags.toggle(i);
        assert_eq!(flags.0 & (1 << i), 0);
    }
}

#[test]
fn test_flag_enable() {
    let mut flags = Flags::<u8>::default();
    assert_eq!(flags.0, 0);
    for i in 0..8u8 {
        assert_eq!(flags.0 & (1 << i), 0);
        flags.enable(i);
        assert_eq!(flags.0 & (1 << i), 1 << i);
        flags.enable(i);
        assert_eq!(flags.0 & (1 << i), 1 << i);
    }
}

#[test]
fn test_flag_disable() {
    let mut flags = Flags::<u8>::new(0b11111111);
    assert_eq!(flags.0, 0xff);
    for i in 0..8u8 {
        assert_eq!(flags.0 & (1 << i), 1 << i);
        flags.disable(i);
        assert_eq!(flags.0 & (1 << i), 0);
        flags.disable(i);
        assert_eq!(flags.0 & (1 << i), 0);
    }
}

#[test]
fn test_flag_is() {
    let mut flags = Flags::<u8>::default();
    assert_eq!(flags.0, 0);
    for i in 0..8u8 {
        assert_eq!(flags.is_enable(i), false);
        assert_eq!(flags.is_disable(i), true);
        flags.enable(i);
        assert_eq!(flags.is_enable(i), true);
        assert_eq!(flags.is_disable(i), false);
        flags.disable(i);
        assert_eq!(flags.is_enable(i), false);
        assert_eq!(flags.is_disable(i), true);
    }
}

#[test]
fn flags_toggle_twice_keeps_other_bits() {
    let mut flags = Flags::<u8>::new(0b1010_0101);
    flags.toggle(3);
    assert_eq!(flags.0, 0b1010_1101);
    flags.toggle(3);
    assert_eq!(flags.0, 0b1010_0101);
}

#[test]
fn roundup_multiples() {
    assert_eq!(roundup(0, 4096), 0);
    assert_eq!(roundup(1, 4096), 4096);
    assert_eq!(roundup(4096, 4096), 4096);
    assert_eq!(roundup(4097, 4096), 8192);
    assert_eq!(roundup(10, 3), 12);
}
