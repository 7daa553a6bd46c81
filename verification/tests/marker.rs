use packs::ll::marker::{Marker, MarkerHighNibble};
use packs::ByteReader;

pub fn marker_from_bytes_test(marker: Marker, bytes: &[u8]) {
    let mut reader = ByteReader::new(bytes);
    let m = Marker::decode(&mut reader)
        .unwrap_or_else(|_| panic!("Decoding error on bytes {:X?} trying to read out marker {:?}", bytes, marker));
    assert_eq!(marker, m);
}

#[test]
fn from_u8_plus_tiny_int_marker() {
    marker_from_bytes_test(Marker::PlusTinyInt(0x0F), &[0x0F]);
}

#[test]
fn from_u8_minus_tiny_int_marker() {
    for i in 0u8..0x10 {
        marker_from_bytes_test(Marker::MinusTinyInt(0xF0 | i), &[(0xF0 | i)]);
    }
}

#[test]
fn from_u8_tiny_sized_marker() {
    let r: Vec<fn(usize) -> Marker> = vec![
        Marker::TinyString,
        Marker::TinyList,
        Marker::TinyDictionary,
    ];

    for m in r {
        for i in 0u8..0x10 {
            marker_from_bytes_test(m(i as usize), &[(m(0).high_nibble().byte() | i)]);
        }
    }
}

#[test]
fn from_high_nibble() {
    let r = vec![
        Marker::Null,
        Marker::Float64,
        Marker::False,
        Marker::True,
        Marker::MinusTinyInt(0xF0),
        Marker::PlusTinyInt(0x00),
        Marker::Int8,
        Marker::Int16,
        Marker::Int32,
        Marker::Int64,
        Marker::TinyString(0),
        Marker::String8,
        Marker::String16,
        Marker::String32,
        Marker::TinyList(0),
        Marker::List8,
        Marker::List16,
        Marker::List32,
        Marker::TinyDictionary(0),
        Marker::Dictionary8,
        Marker::Dictionary16,
        Marker::Dictionary32,
        Marker::Bytes8,
        Marker::Bytes16,
        Marker::Bytes32,
    ];

    for m in r {
        marker_from_bytes_test(m, &[m.high_nibble().byte()]);
    }
}

#[test]
fn marker_encode_decode_round_trip() {
    let markers = vec![
        Marker::TinyString(0),
        Marker::TinyString(15),
        Marker::TinyList(0),
        Marker::TinyList(15),
        Marker::TinyDictionary(0),
        Marker::TinyDictionary(15),
        Marker::Structure(0, 0x4E),
        Marker::Structure(15, 0xFF),
        Marker::PlusTinyInt(0),
        Marker::PlusTinyInt(0x7F),
        Marker::MinusTinyInt(0xF0),
        Marker::MinusTinyInt(0xFF),
        Marker::Null,
        Marker::Float64,
        Marker::True,
        Marker::False,
        Marker::Int8,
        Marker::Int16,
        Marker::Int32,
        Marker::Int64,
        Marker::String8,
        Marker::String16,
        Marker::String32,
        Marker::Bytes8,
        Marker::Bytes16,
        Marker::Bytes32,
        Marker::List8,
        Marker::List16,
        Marker::List32,
        Marker::Dictionary8,
        Marker::Dictionary16,
        Marker::Dictionary32,
    ];
    for m in markers {
        let mut buffer: Vec<u8> = Vec::new();
        let written = m.encode(&mut buffer).unwrap();
        assert_eq!(written, buffer.len());
        let mut reader = ByteReader::new(buffer.as_slice());
        let back = Marker::decode(&mut reader).unwrap();
        assert_eq!(m, back);
        assert_eq!(reader.position(), buffer.len());
    }
}

#[test]
fn undefined_marker_byte_is_rejected() {
    let bytes: &[u8] = &[0xD7];
    let mut reader = ByteReader::new(bytes);
    match Marker::decode(&mut reader) {
        Err(packs::DecodeError::UnknownMarkerByte(b)) => assert_eq!(b, 0xD7),
        other => panic!("expected UnknownMarkerByte, got {:?}", other),
    }
}

#[test]
fn structure_marker_carries_tag() {
    let bytes: &[u8] = &[0xB3, 0x4E];
    let mut reader = ByteReader::new(bytes);
    assert_eq!(Marker::decode(&mut reader).unwrap(), Marker::Structure(3, 0x4E));
    assert_eq!(MarkerHighNibble::Structure.byte(), 0xB0);
    assert!(MarkerHighNibble::Structure.is_contained_in(0xB3));
    assert!(!MarkerHighNibble::Structure.is_contained_in(0xA3));
}
