use std::fmt::Debug;
use packs::{ByteReader, Bytes, Pack, Unpack};

pub fn unpack_pack_test<T: Unpack + Pack>(buffer: &[u8]) {
    let compare = buffer.to_vec();
    let mut reader = ByteReader::new(buffer);
    let res = T::decode(&mut reader).unwrap();

    let mut res_buffer: Vec<u8> = Vec::new();
    res.encode(&mut res_buffer).unwrap();

    assert_eq!(
        compare, res_buffer,
        "expected '{:X?}' but got '{:X?}'",
        compare, res_buffer
    );
}

pub fn pack_unpack_test<T: Pack + Unpack + PartialEq + Debug>(values: &[T]) {
    for value in values {
        let mut buffer: Vec<u8> = Vec::new();
        value
            .encode(&mut buffer)
            .unwrap_or_else(|_| panic!("cannot encode '{:?}'", value));

        let mut reader = ByteReader::new(buffer.as_slice());
        let res = T::decode(&mut reader)
            .unwrap_or_else(|_| panic!("cannot decode back to '{:?}'", value));
        assert_eq!(
            value, &res,
            "'{:?}' got packed->unpacked into '{:?}'",
            value, res
        );
    }
}

pub fn pack_to_test<T: Pack + Debug>(value: T, bytes: &[u8]) {
    let mut encoded: Vec<u8> = Vec::new();
    let used_bits = value.encode(&mut encoded).unwrap();

    assert_eq!(
        used_bits,
        bytes.len(),
        "{} written bits, but expected {} bits.",
        used_bits,
        bytes.len()
    );
    assert_eq!(
        encoded, bytes,
        "value '{:?}' encoded into '{:X?}' but expected '{:X?}'",
        value, encoded, bytes
    );
}

pub fn unpack_to_test<T: Unpack + Debug + PartialEq>(bytes: &[u8], value: T) {
    assert!(bytes.len() > 0, "Input bytes cannot be empty.");

    let mut reader = ByteReader::new(bytes);
    let res = T::decode(&mut reader).unwrap();

    assert_eq!(
        reader.position(),
        bytes.len(),
        "need to read all {} bytes, but read only {}",
        bytes.len(),
        reader.position()
    );

    assert_eq!(res, value);
}

#[test]
fn unpack_pack_m1_tiny_int() {
    unpack_pack_test::<i64>(&[0xFF]);
    unpack_pack_test::<i32>(&[0xFF]);
}

#[test]
fn unpack_to_m1_minus_tiny_int() {
    unpack_to_test(&[0xFF], -1i64);
    unpack_to_test(&[0xFF], -1i32);
}

#[test]
fn unpack_to_m1_int8() {
    unpack_to_test(&[0xC8, 0xFF], -1i32);
    unpack_to_test(&[0xC8, 0xFF], -1i64);
}

#[test]
fn unpack_to_m1_int16() {
    unpack_to_test(&[0xC9, 0xFF, 0xFF], -1i64);
    unpack_to_test(&[0xC9, 0xFF, 0xFF], -1i32);
}

#[test]
fn unpack_to_m1_int32() {
    unpack_to_test(&[0xCA, 0xFF, 0xFF, 0xFF, 0xFF], -1i32);
    unpack_to_test(&[0xCA, 0xFF, 0xFF, 0xFF, 0xFF], -1i64);
}

#[test]
fn unpack_to_hello_string() {
    unpack_to_test(&[0x85, 0x68, 0x65, 0x6C, 0x6C, 0x6F], String::from("hello"));
    unpack_to_test(&[0xD0, 0x05, 0x68, 0x65, 0x6C, 0x6C, 0x6F], String::from("hello"));
    unpack_to_test(&[0xD1, 0x00, 0x05, 0x68, 0x65, 0x6C, 0x6C, 0x6F], String::from("hello"));
    unpack_to_test(
        &[0xD2, 0x00, 0x00, 0x00, 0x05, 0x68, 0x65, 0x6C, 0x6C, 0x6F],
        String::from("hello"),
    );
}

#[test]
fn space_shrinking_packing_numbers() {
    pack_to_test(-1i32, &[0xFF]);
    pack_to_test(-1i64, &[0xFF]);
    pack_to_test(-17i32, &[0xC8, 0xEF]);
    pack_to_test(-17i64, &[0xC8, 0xEF]);
    pack_to_test(128i32, &[0xC9, 0x00, 0x80]);
    pack_to_test(128i64, &[0xC9, 0x00, 0x80]);
}

#[test]
fn space_shrinking_packing_strings() {
    pack_to_test(String::from("hello"), &[0x85, 0x68, 0x65, 0x6C, 0x6C, 0x6F]);
    pack_to_test(String::from(""), &[0x80]);
}

#[test]
fn pack_unpack_numbers() {
    pack_unpack_test(&[0i64, 1, -1, 127, 443928, 49448443, -2700392]);
    pack_unpack_test(&[0i32, 1, -1, 127, 443928, 49448443, -2700392]);
}

#[test]
fn pack_unpack_strings() {
    let strings: Vec<String> =
        vec!["hello world",
             "JErl .aA_E Ae1-233k 12\u{E4}##",
             "",
             "\u{DF}++\u{B0}",
             "Lorem ipsum dolor sit amet, consetetur sadipscing elitr, sed diam nonumy eirmod tempor invidunt ut labore et dolore magna aliquyam erat, sed diam voluptua. At vero eos et accusam et justo duo dolores et ea rebum. Stet clita kasd gubergren, no sea takimata sanctus est Lorem ipsum dolor sit amet. Lorem ipsum dolor sit amet, consetetur sadipscing elitr, sed diam nonumy eirmod tempor invidunt ut labore et dolore magna aliquyam erat, sed diam voluptua. At vero eos et accusam et justo duo dolores et ea rebum. Stet clita kasd gubergren, no sea takimata sanctus est Lorem ipsum dolor sit amet."]
            .into_iter()
            .map(String::from)
            .collect();

    pack_unpack_test(&strings);
}

#[test]
fn multibyte_string_round_trip() {
    let mut buffer: Vec<u8> = Vec::new();
    let value = String::from("gr\u{00FC}n \u{00DF} \u{20AC}");
    value.encode(&mut buffer).unwrap();
    let mut reader = ByteReader::new(buffer.as_slice());
    let res = String::decode(&mut reader).unwrap();
    assert_eq!(value, res);
}

#[test]
fn pack_to_bool() {
    pack_to_test(true, &[0xC2]);
    pack_to_test(false, &[0xC3]);
}

#[test]
fn unpack_to_bool() {
    unpack_to_test(&[0xC2], true);
    unpack_to_test(&[0xC3], false);
}

#[test]
fn pack_unpack_bool() {
    pack_unpack_test(&[true, false]);
}

#[test]
fn pack_unpack_vec_int() {
    pack_unpack_test(&[
        vec![1i64, 42, 0, 0],
        vec![],
        vec![3942379123i64, -1, 0, 813819289, -16, -17],
    ]);
}

#[test]
fn pack_unpack_vec_bytes() {
    pack_unpack_test(&[
        vec![vec![0x08i32, 0x7F]],
        vec![],
        vec![vec![], vec![0xFFi32], vec![], vec![0x00i32]],
    ])
}

#[test]
fn pack_unpack_bytes() {
    pack_unpack_test(&[vec![0x00i32, 0x01, 0x03, 0xFF], vec![]]);
}

#[test]
fn pack_unpack_vec_option_int() {
    pack_unpack_test(&[
        vec![0i64, 0, -1],
        vec![42i64],
        vec![],
        vec![2371237164781i64, -3],
    ])
}

#[test]
fn pack_unpack_option() {
    pack_unpack_test(&[Some(42i64), None, Some(-17i64)]);
    let mut buffer: Vec<u8> = Vec::new();
    let value: Option<i64> = None;
    value.encode(&mut buffer).unwrap();
    assert_eq!(buffer, vec![0xC0]);
}

#[test]
fn pack_unpack_byte_blob() {
    let blob = Bytes(vec![0x00, 0x01, 0x03, 0xFF]);
    let mut buffer: Vec<u8> = Vec::new();
    let written = blob.encode(&mut buffer).unwrap();
    assert_eq!(written, buffer.len());
    assert_eq!(buffer, vec![0xCC, 0x04, 0x00, 0x01, 0x03, 0xFF]);

    let mut reader = ByteReader::new(buffer.as_slice());
    let back = Bytes::decode(&mut reader).unwrap();
    assert_eq!(blob, back);
}

#[test]
fn decode_is_not_injective_but_reencoding_is_minimal() {
    let wide: &[u8] = &[0xC9, 0xFF, 0xFF];
    let tiny: &[u8] = &[0xFF];

    let mut wide_reader = ByteReader::new(wide);
    let mut tiny_reader = ByteReader::new(tiny);
    let from_wide = i64::decode(&mut wide_reader).unwrap();
    let from_tiny = i64::decode(&mut tiny_reader).unwrap();
    assert_eq!(from_wide, -1);
    assert_eq!(from_wide, from_tiny);

    let mut reencoded: Vec<u8> = Vec::new();
    from_wide.encode(&mut reencoded).unwrap();
    assert_eq!(reencoded, vec![0xFF]);
}

#[test]
fn truncated_input_is_rejected() {
    let bytes: &[u8] = &[0xC9, 0xFF];
    let mut reader = ByteReader::new(bytes);
    match i64::decode(&mut reader) {
        Err(packs::DecodeError::UnexpectedEndOfStream) => {},
        other => panic!("expected UnexpectedEndOfStream, got {:?}", other),
    }
}

#[test]
fn invalid_utf8_is_rejected() {
    let bytes: &[u8] = &[0x81, 0xFF];
    let mut reader = ByteReader::new(bytes);
    match String::decode(&mut reader) {
        Err(packs::DecodeError::InvalidUtf8) => {},
        other => panic!("expected InvalidUtf8, got {:?}", other),
    }
}

#[test]
fn unexpected_marker_is_rejected() {
    let bytes: &[u8] = &[0x85, 0x68, 0x65, 0x6C, 0x6C, 0x6F];
    let mut reader = ByteReader::new(bytes);
    match i64::decode(&mut reader) {
        Err(packs::DecodeError::UnexpectedMarker(m)) => {
            assert_eq!(m, packs::Marker::TinyString(5))
        },
        other => panic!("expected UnexpectedMarker, got {:?}", other),
    }
}
