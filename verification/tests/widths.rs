use bit_buffers::{PopBuffer, PushBuffer, Word};

#[test]
fn push_sets_the_sign_bit() {
    let mut buffer = PushBuffer::<i8>::default();
    buffer.push_bits(8, 0xFF);
    assert_eq!(buffer.into_bytes(), -1);

    let mut buffer = PushBuffer::<i8>::default();
    buffer.push_bits(1, 1);
    buffer.push_bits(7, 0);
    assert_eq!(buffer.into_bytes(), i8::MIN);

    let mut buffer = PushBuffer::<i16>::default();
    buffer.push_bits(8, 0x80);
    buffer.push_bits(8, 0x01);
    assert_eq!(buffer.into_bytes(), i16::MIN + 1);

    let mut buffer = PushBuffer::<i32>::default();
    let mut i = 0;
    while i < 4 {
        buffer.push_bits(8, 0xFF);
        i += 1;
    }
    assert_eq!(buffer.into_bytes(), -1);

    let mut buffer = PushBuffer::<i64>::default();
    buffer.push_bits(1, 1);
    let mut i = 0;
    while i < 9 {
        buffer.push_bits(7, 0);
        i += 1;
    }
    assert_eq!(buffer.into_bytes(), i64::MIN);

    let mut buffer = PushBuffer::<i128>::default();
    let mut i = 0;
    while i < 16 {
        buffer.push_bits(8, 0xFF);
        i += 1;
    }
    assert_eq!(buffer.into_bytes(), -1);
}

#[test]
fn push_onto_negative_content_shifts_it_up() {
    let mut buffer = PushBuffer::<i16>::default();
    buffer.push_bits(8, 0xFF);
    buffer.push_bits(8, 0xFE);
    assert_eq!(buffer.into_bytes(), -2);

    let mut buffer = PushBuffer::<i16>::default();
    buffer.push_bits(8, 0xFF);
    buffer.push_bits(8, 0xFE);
    buffer.push_bits(4, 0b0011);
    assert_eq!(buffer.into_bytes(), -29);
}

#[test]
fn push_fills_each_unsigned_width() {
    let mut buffer = PushBuffer::<u8>::default();
    buffer.push_bits(8, 0xFF);
    assert_eq!(buffer.into_bytes(), u8::MAX);

    let mut buffer = PushBuffer::<u16>::default();
    let mut i = 0;
    while i < 2 {
        buffer.push_bits(8, 0xFF);
        i += 1;
    }
    assert_eq!(buffer.into_bytes(), u16::MAX);

    let mut buffer = PushBuffer::<u32>::default();
    let mut i = 0;
    while i < 4 {
        buffer.push_bits(8, 0xFF);
        i += 1;
    }
    assert_eq!(buffer.into_bytes(), u32::MAX);

    let mut buffer = PushBuffer::<u64>::default();
    let mut i = 0;
    while i < 8 {
        buffer.push_bits(8, 0xFF);
        i += 1;
    }
    assert_eq!(buffer.into_bytes(), u64::MAX);

    let mut buffer = PushBuffer::<u128>::default();
    let mut i = 0;
    while i < 16 {
        buffer.push_bits(8, 0xFF);
        i += 1;
    }
    assert_eq!(buffer.into_bytes(), u128::MAX);
}

#[test]
fn pop_reaches_the_top_of_each_width() {
    let mut buffer = PopBuffer::<u16>::from_bytes(0x8001);
    assert_eq!(buffer.pop_bits(8), 0x01);
    assert_eq!(buffer.pop_bits(8), 0x80);
    assert_eq!(buffer.pop_bits(8), 0);

    let mut buffer = PopBuffer::<u32>::from_bytes(0x8000_0001);
    assert_eq!(buffer.pop_bits(8), 0x01);
    assert_eq!(buffer.pop_bits(8), 0);
    assert_eq!(buffer.pop_bits(8), 0);
    assert_eq!(buffer.pop_bits(8), 0x80);
    assert_eq!(buffer.pop_bits(8), 0);

    let mut buffer = PopBuffer::<u64>::from_bytes(0xA000_0000_0000_0005);
    assert_eq!(buffer.pop_bits(4), 0x5);
    let mut i = 0;
    while i < 7 {
        assert_eq!(buffer.pop_bits(8), 0);
        i += 1;
    }
    assert_eq!(buffer.pop_bits(4), 0xA);
    assert_eq!(buffer.pop_bits(8), 0);

    let mut buffer = PopBuffer::<u128>::from_bytes(0xC3 << 120 | 0x5A);
    assert_eq!(buffer.pop_bits(8), 0x5A);
    let mut i = 0;
    while i < 14 {
        assert_eq!(buffer.pop_bits(8), 0);
        i += 1;
    }
    assert_eq!(buffer.pop_bits(8), 0xC3);
    assert_eq!(buffer.pop_bits(8), 0);

    let mut buffer = PopBuffer::<i128>::from_bytes(-0x100);
    assert_eq!(buffer.pop_bits(8), 0);
    let mut i = 0;
    while i < 15 {
        assert_eq!(buffer.pop_bits(8), 0xFF);
        i += 1;
    }
    assert_eq!(buffer.pop_bits(8), 0);
}

#[test]
fn pop_matches_the_unsigned_buffer_of_the_same_bits() {
    let values: [i64; 5] = [-1, i64::MIN, -0x1234_5678_9ABC_DEF0, 0x0FED_CBA9_8765_4321, 0];
    let amounts: [u32; 11] = [1, 8, 3, 7, 5, 8, 8, 8, 8, 6, 2];
    for value in values {
        let mut signed = PopBuffer::<i64>::from_bytes(value);
        let mut unsigned = PopBuffer::<u64>::from_bytes(value as u64);
        for amount in amounts {
            assert_eq!(signed.pop_bits(amount), unsigned.pop_bits(amount));
        }
        assert_eq!(signed.pop_bits(8), 0);
    }
}

#[test]
fn push_matches_the_unsigned_buffer_of_the_same_bits() {
    let groups: [(u32, u8); 7] =
        [(8, 0x9C), (3, 0b101), (8, 0xFF), (1, 0), (7, 0x55), (8, 0x01), (5, 0xF3)];
    let mut signed = PushBuffer::<i32>::default();
    let mut unsigned = PushBuffer::<u32>::default();
    for (amount, bits) in groups {
        signed.push_bits(amount, bits);
        unsigned.push_bits(amount, bits);
    }
    assert_eq!(signed.into_bytes() as u32, unsigned.into_bytes());
}

#[test]
fn word_low_reads_the_low_bits() {
    assert_eq!(0b1101_0110u8.low(3), 0b110);
    assert_eq!(0xABCDu16.low(8), 0xCD);
    assert_eq!(0xABCDu16.low(4), 0xD);
    assert_eq!((-1i32).low(5), 0b1_1111);
    assert_eq!(i64::MIN.low(8), 0);
    assert_eq!(u128::MAX.low(1), 1);
    assert_eq!((-2i128).low(8), 0xFE);
}

#[test]
fn word_shift_right_is_logical() {
    assert_eq!(0b1101_0110u8.shift_right(3), 0b0001_1010);
    assert_eq!(0xFFu8.shift_right(8), 0);
    assert_eq!((-1i8).shift_right(8), 0);
    assert_eq!((-1i8).shift_right(1), 0x7F);
    assert_eq!(i16::MIN.shift_right(8), 0x0080);
    assert_eq!((-1i32).shift_right(4), 0x0FFF_FFFF);
    assert_eq!((-1i64).shift_right(8), 0x00FF_FFFF_FFFF_FFFF);
    assert_eq!(i128::MIN.shift_right(1), 1 << 126);
    assert_eq!(u128::MAX.shift_right(8), u128::MAX >> 8);
}

#[test]
fn word_shift_left_with_drops_the_top() {
    assert_eq!(0b1011_0110u8.shift_left_with(3, 0b101), 0b1011_0101);
    assert_eq!(0xF0u8.shift_left_with(8, 0x0F), 0x0F);
    assert_eq!(0x70i8.shift_left_with(8, 0x8F), -0x71);
    assert_eq!(0x1234u16.shift_left_with(8, 0x56), 0x3456);
    assert_eq!(0x4000i16.shift_left_with(1, 0xFF), i16::MIN + 1);
    assert_eq!(u32::MAX.shift_left_with(4, 0), 0xFFFF_FFF0);
    assert_eq!((-1i64).shift_left_with(8, 0x100u16 as u8), -0x100);
    assert_eq!(u128::MAX.shift_left_with(8, 0xA5), (u128::MAX << 8) | 0xA5);
}

#[test]
fn word_zero_is_zero() {
    assert_eq!(<u8 as Word>::zero(), 0);
    assert_eq!(<i16 as Word>::zero(), 0);
    assert_eq!(<u128 as Word>::zero(), 0);
    assert_eq!(<i128 as Word>::zero(), 0);
}
