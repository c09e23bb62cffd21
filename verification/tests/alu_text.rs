use z80_rust::alu::{adc16, add16, add8, alu8, bit_test, daa, dec8, inc8, parity, rot8, sbc16, sub8, szp};
use z80_rust::text::{is_blank, parse_hex16, parse_u64, parse_unsigned, space, split_lines, split_whitespace, trimmed};
use z80_rust::Flags;

#[test]
fn parity_counts_set_bits() {
    assert!(parity(0x00));
    assert!(!parity(0x01));
    assert!(parity(0x03));
    assert!(parity(0xFF));
    assert!(!parity(0x80));
}

#[test]
fn szp_flags_of_values() {
    assert_eq!(szp(0x00), 0x44);
    assert_eq!(szp(0x80), 0x80);
    assert_eq!(szp(0x28), 0x2C);
}

#[test]
fn eight_bit_add_and_subtract() {
    assert_eq!(add8(0x7F, 0x01, 0), (0x80, 0x94));
    assert_eq!(add8(0xFF, 0x01, 0), (0x00, 0x51));
    assert_eq!(add8(0x0E, 0x01, 1), (0x10, 0x10));
    assert_eq!(sub8(0x10, 0x20, 0), (0xF0, 0xA3));
    assert_eq!(sub8(0x80, 0x01, 0), (0x7F, 0x3E));
    assert_eq!(sub8(0x00, 0x00, 1), (0xFF, 0xBB));
}

#[test]
fn alu_group_operations() {
    // AND sets H; XOR and OR clear it; CP leaves A.
    assert_eq!(alu8(4, 0xF0, 0x0F, 0x00), (0x00, 0x54));
    assert_eq!(alu8(5, 0x5A, 0x5A, 0xFF), (0x00, 0x44));
    assert_eq!(alu8(6, 0x01, 0x80, 0x00), (0x81, 0x84));
    assert_eq!(alu8(7, 0x28, 0x28, 0x00), (0x28, 0x6A));
    // ADC uses the carry in F.
    assert_eq!(alu8(1, 0x01, 0x01, 0x01), (0x03, 0x00));
}

#[test]
fn increment_and_decrement_keep_carry() {
    assert_eq!(inc8(0x7F, 0x01), (0x80, 0x95));
    assert_eq!(dec8(0x01, 0x00), (0x00, 0x42));
    assert_eq!(dec8(0x00, 0x01), (0xFF, 0xBB));
}

#[test]
fn decimal_adjust() {
    assert_eq!(daa(0x3C, 0x00), (0x42, 0x14));
    assert_eq!(daa(0x9A, 0x00), (0x00, 0x55));
    // After a subtraction: 0x10 - 0x01 = 0x0F with H set.
    assert_eq!(daa(0x0F, 0x12), (0x09, 0x0E));
}

#[test]
fn sixteen_bit_operations() {
    assert_eq!(add16(0x0FFF, 0x0001, 0x00), (0x1000, 0x10));
    assert_eq!(add16(0xFFFF, 0x0001, 0xC4), (0x0000, 0xD5));
    assert_eq!(adc16(0x7FFF, 0x0000, 1), (0x8000, 0x94));
    assert_eq!(sbc16(0x1000, 0x0001, 0), (0x0FFF, 0x1A));
    assert_eq!(sbc16(0x0000, 0x0000, 1), (0xFFFF, 0xBB));
}

#[test]
fn rotations_and_shifts() {
    assert_eq!(rot8(0, 0x81, 0x00), (0x03, 0x05));
    assert_eq!(rot8(1, 0x01, 0x00), (0x80, 0x81));
    assert_eq!(rot8(2, 0x80, 0x01), (0x01, 0x01));
    assert_eq!(rot8(3, 0x01, 0x00), (0x00, 0x45));
    assert_eq!(rot8(5, 0x81, 0x00), (0xC0, 0x85));
    // SLL shifts a one in.
    assert_eq!(rot8(6, 0x00, 0x00), (0x01, 0x00));
    assert_eq!(rot8(7, 0x80, 0x00), (0x40, 0x00));
}

#[test]
fn bit_test_flags() {
    // Bit 7 of 0x80, X/Y from 0x28, carry kept.
    assert_eq!(bit_test(7, 0x80, 0x28, 0x01), 0xB9);
    // Bit 0 of 0x00: Z and P/V set.
    assert_eq!(bit_test(0, 0x00, 0x00, 0x00), 0x54);
}

#[test]
fn flag_accessors() {
    let mut f = Flags::new(0x00);
    f.set_s(1);
    f.set_z(1);
    f.set_y(1);
    f.set_h(1);
    f.set_x(1);
    f.set_pv(1);
    f.set_n(1);
    f.set_c(2);
    assert_eq!(f.byte(), 0xFF);
    f.set_z(0);
    f.set_c(0);
    assert_eq!(f.byte(), 0xBE);
    assert_eq!((f.s(), f.z(), f.h(), f.pv(), f.n(), f.c()), (1, 0, 1, 1, 1, 0));
}

#[test]
fn line_splitting() {
    assert_eq!(split_lines(b"a\r\nb\n\nc"), vec![b"a".to_vec(), b"b".to_vec(), vec![], b"c".to_vec()]);
    assert_eq!(split_lines(b"one\n"), vec![b"one".to_vec()]);
    assert_eq!(split_lines(b""), Vec::<Vec<u8>>::new());
}

#[test]
fn whitespace_splitting_and_trimming() {
    assert_eq!(split_whitespace(b"  00 01\t-1  "), vec![b"00".to_vec(), b"01".to_vec(), b"-1".to_vec()]);
    assert_eq!(split_whitespace(b"   "), Vec::<Vec<u8>>::new());
    assert_eq!(trimmed(b" \t76 \r"), b"76".to_vec());
    assert!(is_blank(b" \t "));
    assert!(!is_blank(b" x "));
    assert!(space(b'\t'));
    assert!(!space(b'x'));
}

#[test]
fn number_parsing() {
    assert_eq!(parse_hex16(b"e912"), Some(0xE912));
    assert_eq!(parse_hex16(b"FFFF"), Some(0xFFFF));
    assert_eq!(parse_hex16(b"10000"), None);
    assert_eq!(parse_hex16(b"-1"), None);
    assert_eq!(parse_hex16(b""), None);
    assert_eq!(parse_u64(b"+42"), Some(42));
    assert_eq!(parse_u64(b"18446744073709551615"), Some(u64::MAX));
    assert_eq!(parse_u64(b"18446744073709551616"), None);
    assert_eq!(parse_u64(b"4a"), None);
    assert_eq!(parse_unsigned(b"ff", 16, 0xFF), Some(0xFF));
    assert_eq!(parse_unsigned(b"100", 16, 0xFF), None);
}
