use packs::ll::bounds::{MAX_PLUS_TINY_INT, MIN_MINUS_TINY_INT};
use packs::ll::types::fixed::{
    decode_body_f64, decode_minus_tiny_int, decode_plus_tiny_int, encode_f64,
    encode_minus_tiny_int, encode_plus_tiny_int,
};
use packs::ll::marker::Marker;
use packs::ByteReader;

#[test]
fn minus_tiny_ints_encode() {
    let mut buffer = Vec::with_capacity(16);
    for i in MIN_MINUS_TINY_INT..0 {
        encode_minus_tiny_int(i, &mut buffer).unwrap();
    }

    for i in 0..-MIN_MINUS_TINY_INT {
        assert_eq!(buffer[i as usize], 0xF0 | i as u8);
    }
}

#[test]
fn minus_tiny_ints_decode() {
    let mut buffer: Vec<u8> = Vec::with_capacity(16);
    for i in 0x00u8..0x10 {
        buffer.push(0xF0 | i)
    }

    let mut iter = ByteReader::new(buffer.as_slice());
    for i in MIN_MINUS_TINY_INT..0 {
        assert_eq!(decode_minus_tiny_int(&mut iter).unwrap(), i);
    }
}

#[test]
fn minus_tiny_ints_encode_decode() {
    let mut buffer: Vec<u8> = Vec::with_capacity(16);
    for i in MIN_MINUS_TINY_INT..0 {
        encode_minus_tiny_int(i, &mut buffer).unwrap();
    }

    let mut iter = ByteReader::new(buffer.as_slice());
    for i in MIN_MINUS_TINY_INT..0 {
        let res = decode_minus_tiny_int(&mut iter).unwrap();
        assert_eq!(res, i);
    }
}

#[test]
fn plus_tiny_ints_encode_decode() {
    let mut buffer: Vec<u8> = Vec::with_capacity(MAX_PLUS_TINY_INT as usize);
    for i in 0u8..(MAX_PLUS_TINY_INT + 1) {
        encode_plus_tiny_int(i, &mut buffer).unwrap();
    }

    let mut iter = ByteReader::new(buffer.as_slice());
    for i in 0..(MAX_PLUS_TINY_INT + 1) {
        let res = decode_plus_tiny_int(&mut iter).unwrap();
        assert_eq!(res, i);
    }
}

#[test]
fn pack_unpack_f64() {
    for value in [0.3f64, 0.42, -1.0, 0.33333, -455402.1] {
        let mut buffer: Vec<u8> = Vec::new();
        encode_f64(value.to_bits(), &mut buffer).unwrap();
        assert_eq!(buffer.len(), 9);
        assert_eq!(buffer[0], 0xC1);

        let mut reader = ByteReader::new(buffer.as_slice());
        assert_eq!(Marker::decode(&mut reader).unwrap(), Marker::Float64);
        let bits = decode_body_f64(&mut reader).unwrap();
        assert_eq!(f64::from_bits(bits), value);
    }
}
