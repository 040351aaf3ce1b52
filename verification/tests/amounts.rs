use sudt::amount::{decode_amount, AMOUNT_BYTES};
use sudt::error::Error;

#[test]
fn amount_takes_sixteen_bytes() {
    assert_eq!(AMOUNT_BYTES, 16);
}

#[test]
fn lowest_byte_comes_first() {
    let mut data = [0u8; 16];
    data[0] = 100;
    assert_eq!(decode_amount(&data), Ok(100));
    data[1] = 1;
    assert_eq!(decode_amount(&data), Ok(356));
    let mut high = [0u8; 16];
    high[15] = 0x80;
    assert_eq!(decode_amount(&high), Ok(1u128 << 127));
}

#[test]
fn every_byte_has_its_place() {
    let data: Vec<u8> = (1u8..=16).collect();
    assert_eq!(decode_amount(&data), Ok(0x100f0e0d0c0b0a090807060504030201u128));
}

#[test]
fn smallest_and_largest_amount() {
    assert_eq!(decode_amount(&[0u8; 16]), Ok(0));
    assert_eq!(decode_amount(&[0xffu8; 16]), Ok(u128::MAX));
}

#[test]
fn decoding_undoes_encoding() {
    for value in [0u128, 1, 255, 256, 50, 51, 1 << 64, u128::MAX - 1, 0x0123456789abcdef0fedcba987654321] {
        assert_eq!(decode_amount(&value.to_le_bytes()), Ok(value));
    }
}

#[test]
fn other_lengths_are_encoding_errors() {
    assert_eq!(decode_amount(&[]), Err(Error::Encoding));
    assert_eq!(decode_amount(&[1u8]), Err(Error::Encoding));
    assert_eq!(decode_amount(&[0u8; 10]), Err(Error::Encoding));
    assert_eq!(decode_amount(&[0u8; 15]), Err(Error::Encoding));
    assert_eq!(decode_amount(&[0u8; 17]), Err(Error::Encoding));
    assert_eq!(decode_amount(&[0u8; 32]), Err(Error::Encoding));
}
