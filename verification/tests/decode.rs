use blackbox_log::parser::decode::{sign_extend, tagged_32_variable};
use blackbox_log::parser::InternalError;
use blackbox_log::Reader;

#[test]
fn case0_two_bits() {
    // Tag 0b00, values: 0, -1, 1 → bits: 00 11 01 → 0x0D
    let b = [0x0D];
    let mut b = Reader::new(&b);

    assert_eq!([0, -1, 1], tagged_32_variable(&mut b).unwrap());
    assert!(b.is_empty());
}

#[test]
fn case1_five_five_four_bits() {
    // field0 = bits 5..1 of byte1 = (0x44 & 0x3E) >> 1 = 2
    // field1 = bit 0 of byte1 << 4 | bits 7..4 of byte2 = 0 | 2 = 2
    // field2 = bits 3..0 of byte2 = 0x23 & 0x0F = 3
    let b = [0x44, 0x23];
    let mut b = Reader::new(&b);

    assert_eq!([2, 2, 3], tagged_32_variable(&mut b).unwrap());
    assert!(b.is_empty());
}

#[test]
fn case2_eight_seven_seven_bits() {
    // byte1 = 10_000000 = 0x80
    // byte2 = 01_000001 = 0x41
    // byte3 = 0_0000011 = 0x03
    let b = [0x80, 0x41, 0x03];
    let mut b = Reader::new(&b);

    assert_eq!([1, 2, 3], tagged_32_variable(&mut b).unwrap());
    assert!(b.is_empty());
}

#[test]
fn case3_eight_bit() {
    // Tag 0b11, all 8-bit (selector 0b00 for each)
    let b = [0xC0, 0x01, 0x02, 0x03];
    let mut b = Reader::new(&b);

    assert_eq!([1, 2, 3], tagged_32_variable(&mut b).unwrap());
    assert!(b.is_empty());
}

#[test]
fn case3_sixteen_bit() {
    // Tag 0b11, all 16-bit (selector 0b01 for each)
    let b = [0xD5, 0x01, 0x00, 0x02, 0x00, 0x03, 0x00];
    let mut b = Reader::new(&b);

    assert_eq!([1, 2, 3], tagged_32_variable(&mut b).unwrap());
    assert!(b.is_empty());
}

#[test]
fn case3_thirty_two_bit() {
    // Tag 0b11, all 32-bit (selector 0b11 for each)
    let b = [
        0xFF, 0x01, 0x00, 0x00, 0x00, 0x02, 0x00, 0x00, 0x00, 0x03, 0x00, 0x00, 0x00,
    ];
    let mut b = Reader::new(&b);

    assert_eq!([1, 2, 3], tagged_32_variable(&mut b).unwrap());
    assert!(b.is_empty());
}

#[test]
#[should_panic(expected = "Eof")]
fn eof_case1() {
    let mut b = Reader::new(&[0x40]);
    tagged_32_variable(&mut b).unwrap();
}

#[test]
#[should_panic(expected = "Eof")]
fn eof_case2() {
    let mut b = Reader::new(&[0x80]);
    tagged_32_variable(&mut b).unwrap();
}

#[test]
fn negative_numbers_of_each_width() {
    // 5-5-4: -1, -16, -8
    let mut b = Reader::new(&[0x7F, 0x08, 0xAA]);
    assert_eq!([-1, -16, -8], tagged_32_variable(&mut b).unwrap());
    assert_eq!(&[0xAA], b.remaining());

    // 8-7-7: -128, -64, -1
    let mut b = Reader::new(&[0xA0, 0x20, 0x7F]);
    assert_eq!([-128, -64, -1], tagged_32_variable(&mut b).unwrap());
    assert!(b.is_empty());

    // 8, 16 and 24 bits in one group, the first number in the lowest selector
    let mut b = Reader::new(&[0xE4, 0xFF, 0x00, 0x80, 0x00, 0x00, 0x80]);
    assert_eq!([-1, -32768, -8388608], tagged_32_variable(&mut b).unwrap());
    assert!(b.is_empty());

    // 32 bits, then two numbers of 8 bits
    let mut b = Reader::new(&[0xC3, 0x00, 0x00, 0x00, 0x80, 0x7F, 0x80]);
    assert_eq!([i32::MIN, 127, -128], tagged_32_variable(&mut b).unwrap());
    assert!(b.is_empty());
}

#[test]
fn a_group_cut_short_is_read_as_far_as_it_goes() {
    let mut b = Reader::new(&[]);
    assert_eq!(Err(InternalError::Eof), tagged_32_variable(&mut b));

    let mut b = Reader::new(&[0x80, 0x41]);
    assert_eq!(Err(InternalError::Eof), tagged_32_variable(&mut b));
    assert!(b.is_empty());

    // The second number needs two bytes and has one.
    let mut b = Reader::new(&[0xC4, 0x01, 0x02]);
    assert_eq!(Err(InternalError::Eof), tagged_32_variable(&mut b));
    assert_eq!(&[0x02], b.remaining());
}

#[test]
fn bytes_behind_a_group_change_nothing() {
    for more in 0..=255u8 {
        let bytes = [0x44, 0x23, more];
        let mut b = Reader::new(&bytes);
        assert_eq!([2, 2, 3], tagged_32_variable(&mut b).unwrap());
        assert_eq!(&[more], b.remaining());
    }
}

#[test]
fn sign_extend_at_the_edges() {
    assert_eq!(1, sign_extend::<2>(1));
    assert_eq!(-2, sign_extend::<2>(2));
    assert_eq!(-1, sign_extend::<24>(0xFF_FFFF));
    assert_eq!(0x7F_FFFF, sign_extend::<24>(0x7F_FFFF));
    assert_eq!(-1, sign_extend::<32>(u32::MAX));
}
