use probekit::decode::{get_insn_length, get_sp, sext};

#[test]
fn insn_length_from_low_bits() {
    assert_eq!(get_insn_length(0x13), 4);
    assert_eq!(get_insn_length(0x03), 4);
    assert_eq!(get_insn_length(0x41), 2);
    assert_eq!(get_insn_length(0x02), 2);
    assert_eq!(get_insn_length(0x00), 2);
}

#[test]
fn sext_of_fields() {
    assert_eq!(sext(0x7ff, 12), 2047);
    assert_eq!(sext(0x800, 12), -2048);
    assert_eq!(sext(0xfff, 12), -1);
    assert_eq!(sext(0x30, 6), -16);
    assert_eq!(sext(0x0f, 6), 15);
    assert_eq!(sext(0x3e0, 10), -32);
}

#[test]
fn c_addi_sp_minus_16() {
    // c.addi sp, -16
    assert_eq!(get_sp(&[0x41, 0x11]), Some(-16));
}

#[test]
fn addi_sp_largest_and_smallest() {
    // addi sp, sp, 2047
    assert_eq!(get_sp(&[0x13, 0x01, 0xf1, 0x7f]), Some(2047));
    // addi sp, sp, -2048
    assert_eq!(get_sp(&[0x13, 0x01, 0x01, 0x80]), Some(-2048));
    // addi sp, sp, -32
    assert_eq!(get_sp(&[0x13, 0x01, 0x01, 0xfe]), Some(-32));
}

#[test]
fn c_addi16sp_values() {
    // c.addi16sp -64
    assert_eq!(get_sp(&[0x39, 0x71]), Some(-64));
    // c.addi16sp -32
    assert_eq!(get_sp(&[0x3d, 0x71]), Some(-32));
    // c.addi16sp 16
    assert_eq!(get_sp(&[0x41, 0x61]), Some(16));
}

#[test]
fn c_addi4spn_unsigned() {
    // c.addi4spn s0, sp, 16
    assert_eq!(get_sp(&[0x00, 0x08]), Some(16));
    // c.addi4spn a0, sp, 8: nzuimm[3] = bit 5
    assert_eq!(get_sp(&[0x28, 0x00]), Some(8));
}

#[test]
fn other_instructions_refused() {
    // addi x0, x0, 0
    assert_eq!(get_sp(&[0x13, 0x00, 0x00, 0x00]), None);
    // c.nop
    assert_eq!(get_sp(&[0x01, 0x00]), None);
    // addi sp, sp, 0 with rd = a0
    assert_eq!(get_sp(&[0x13, 0x05, 0x01, 0x00]), None);
}

#[test]
fn truncated_prefixes_refused() {
    assert_eq!(get_sp(&[]), None);
    assert_eq!(get_sp(&[0x41]), None);
    // a 4-byte instruction with two bytes only
    assert_eq!(get_sp(&[0x13, 0x01]), None);
    assert_eq!(get_sp(&[0x13, 0x01, 0xf1]), None);
}

#[test]
fn decoder_total_on_every_two_byte_prefix() {
    for v in 0u32..=0xffff {
        let b = [(v & 0xff) as u8, (v >> 8) as u8];
        let r = get_sp(&b);
        if get_insn_length(b[0]) == 4 {
            assert_eq!(r, None);
        }
        if let Some(d) = r {
            assert!(d >= -512 && d < 1024);
        }
    }
}

#[test]
fn decoder_total_on_four_byte_prefixes() {
    for hi in 0u32..=0xfff {
        let w: u32 = (hi << 20) | 0x10113;
        let r = get_sp(&w.to_le_bytes());
        let expected = if hi >= 0x800 { hi as isize - 0x1000 } else { hi as isize };
        assert_eq!(r, Some(expected));
    }
}

#[test]
fn sext_any_width_and_value() {
    assert_eq!(sext(0x30, 6), -16);
    assert_eq!(sext(0x7ff, 12), 2047);
    assert_eq!(sext(0x800, 12), -2048);
    // only the low bits count
    assert_eq!(sext(0x1030, 6), -16);
    assert_eq!(sext(-16, 6), -16);
    assert_eq!(sext(-1, 12), -1);
    assert_eq!(sext(0x8000_0000, 32), -0x8000_0000);
    assert_eq!(sext(isize::MIN, 64), isize::MIN);
    assert_eq!(sext(isize::MAX, 64), isize::MAX);
    assert_eq!(sext(-1, 1), -1);
    assert_eq!(sext(2, 1), 0);
}
