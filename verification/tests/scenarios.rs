use bit_buffers::{PopBuffer, PushBuffer};

#[test]
fn push_two_nibbles_into_u16() {
    let mut buffer = PushBuffer::<u16>::default();
    buffer.push_bits(4, 0b1010);
    buffer.push_bits(4, 0b0011);
    assert_eq!(buffer.into_bytes(), 0x00A3);
}

#[test]
fn push_first_nibble_into_u16() {
    let mut buffer = PushBuffer::<u16>::default();
    buffer.push_bits(4, 0b1010);
    assert_eq!(buffer.into_bytes(), 0b0000_0000_0000_1010);
}

#[test]
fn pop_three_then_five_from_u8() {
    let mut buffer = PopBuffer::<u8>::from_bytes(0b1101_0110);
    assert_eq!(buffer.pop_bits(3), 0b0000_0110);
    assert_eq!(buffer.pop_bits(5), 0b0001_1010);
    assert_eq!(buffer.pop_bits(8), 0);
}

#[test]
fn pop_three_leaves_the_rest_shifted_down() {
    let mut buffer = PopBuffer::<u8>::from_bytes(0b1101_0110);
    assert_eq!(buffer.pop_bits(3), 0b110);
    assert_eq!(buffer.pop_bits(8), 0b0001_1010);
}

#[test]
fn empty_push_buffer_is_zero() {
    assert_eq!(PushBuffer::<u8>::default().into_bytes(), 0);
    assert_eq!(PushBuffer::<u16>::default().into_bytes(), 0);
    assert_eq!(PushBuffer::<u32>::default().into_bytes(), 0);
    assert_eq!(PushBuffer::<u64>::default().into_bytes(), 0);
    assert_eq!(PushBuffer::<u128>::default().into_bytes(), 0);
    assert_eq!(PushBuffer::<i8>::default().into_bytes(), 0);
    assert_eq!(PushBuffer::<i16>::default().into_bytes(), 0);
    assert_eq!(PushBuffer::<i32>::default().into_bytes(), 0);
    assert_eq!(PushBuffer::<i64>::default().into_bytes(), 0);
    assert_eq!(PushBuffer::<i128>::default().into_bytes(), 0);
}

#[test]
fn push_single_bits() {
    let mut buffer = PushBuffer::<u8>::default();
    buffer.push_bits(1, 1);
    buffer.push_bits(1, 0);
    buffer.push_bits(1, 1);
    buffer.push_bits(1, 1);
    assert_eq!(buffer.into_bytes(), 0b1011);
}

#[test]
fn pop_single_bits() {
    let mut buffer = PopBuffer::<u8>::from_bytes(0b1011);
    assert_eq!(buffer.pop_bits(1), 1);
    assert_eq!(buffer.pop_bits(1), 1);
    assert_eq!(buffer.pop_bits(1), 0);
    assert_eq!(buffer.pop_bits(1), 1);
    assert_eq!(buffer.pop_bits(4), 0);
}

#[test]
fn pop_every_amount_from_u32() {
    let value: u32 = 0xDEAD_BEEF;
    let expected: [u8; 8] = [0x01, 0x03, 0x07, 0x0F, 0x0F, 0x2F, 0x6F, 0xEF];
    let mut amount = 1;
    while amount <= 8 {
        let mut buffer = PopBuffer::<u32>::from_bytes(value);
        assert_eq!(buffer.pop_bits(amount), expected[amount as usize - 1]);
        assert_eq!(buffer.pop_bits(8), (value >> amount) as u8);
        amount += 1;
    }
}

#[test]
fn push_every_amount_onto_u32() {
    let start: u32 = 0x0012_3456;
    let mut amount = 1;
    while amount <= 8 {
        let mut buffer = PushBuffer::<u32>::default();
        buffer.push_bits(8, 0x12);
        buffer.push_bits(8, 0x34);
        buffer.push_bits(8, 0x56);
        buffer.push_bits(amount, 0xA5);
        let low = 0xA5u32 & ((1 << amount) - 1);
        assert_eq!(buffer.into_bytes(), (start << amount) | low);
        amount += 1;
    }
}
