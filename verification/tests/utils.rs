use lc3_vm::utils::{high_byte, low_byte, sign_extend};

#[test]
fn sign_extend_bit_is_0() {
    let value = 0b0000_0000_0011_1111;
    let bit_count = 7;
    let expected = 0b0000_0000_0011_1111;
    assert_eq!(sign_extend(value, bit_count), expected);
}

#[test]
fn sign_extend_bit_is_1() {
    let value = 0b0000_0000_0011_1111;
    let bit_count = 6;
    let expected = 0b1111_1111_1111_1111;
    assert_eq!(sign_extend(value, bit_count), expected);
}

#[test]
fn sign_extend_zero() {
    let value = 0b0000_0000_0000_0000;
    let bit_count = 1;
    let expected = 0b0000_0000_0000_0000;
    assert_eq!(sign_extend(value, bit_count), expected);
}

#[test]
fn sign_extend_edge_case() {
    let value = 0b0000_0000_0000_0001;
    let bit_count = 1;
    let expected = 0b1111_1111_1111_1111;
    assert_eq!(sign_extend(value, bit_count), expected);
}

#[test]
fn sign_extend_every_width() {
    for bit_count in 1..16usize {
        let sign = 1u16 << (bit_count - 1);
        // The most negative field: only the sign bit is set.
        let high_bits = 0xFFFFu16 << bit_count;
        assert_eq!(sign_extend(sign, bit_count), sign | high_bits);
        // The most positive field: every bit below the sign bit is set.
        assert_eq!(sign_extend(sign - 1, bit_count), sign - 1);
        // Minus one.
        assert_eq!(sign_extend((sign - 1) | sign, bit_count), 0xFFFF);
    }
}

#[test]
fn sign_extend_keeps_signed_value() {
    for bit_count in 1..16usize {
        let half = 1i32 << (bit_count - 1);
        for field in 0..(1u32 << bit_count) {
            let signed = if (field as i32) < half { field as i32 } else { field as i32 - 2 * half };
            assert_eq!(sign_extend(field as u16, bit_count) as i16 as i32, signed);
        }
    }
}

#[test]
fn sign_extend_instruction_fields() {
    assert_eq!(sign_extend(0x1F, 5), 0xFFFF);
    assert_eq!(sign_extend(0x10, 5), 0xFFF0);
    assert_eq!(sign_extend(0x0F, 5), 0x000F);
    assert_eq!(sign_extend(0x20, 6), 0xFFE0);
    assert_eq!(sign_extend(0x100, 9), 0xFF00);
    assert_eq!(sign_extend(0x0FF, 9), 0x00FF);
    assert_eq!(sign_extend(0x400, 11), 0xFC00);
    assert_eq!(sign_extend(0x3FF, 11), 0x03FF);
}

#[test]
fn bytes_of_a_word() {
    assert_eq!(low_byte(0x1234), 0x34);
    assert_eq!(high_byte(0x1234), 0x12);
    assert_eq!(low_byte(0xFF00), 0x00);
    assert_eq!(high_byte(0xFF00), 0xFF);
    assert_eq!(low_byte(0x00FF), 0xFF);
    assert_eq!(high_byte(0x00FF), 0x00);
}
