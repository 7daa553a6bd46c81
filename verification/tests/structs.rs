use packs::ll::types::lengths::{read_dict_size, read_list_size, read_string_size, Length};
use packs::std_structs::{Date, DateTime, DateTimeZoneId, Duration, LocalDateTime, LocalTime, Time};
use packs::{
    decode_property, decode_struct, encode_property, ByteReader, DecodeError, Marker, Pack, Tags,
    Unpack,
};
use std::fmt::Debug;

fn pack_unpack_test<T: Pack + Unpack + PartialEq + Debug>(values: &[T]) {
    for value in values {
        let mut buffer: Vec<u8> = Vec::new();
        value.encode(&mut buffer).unwrap();
        let mut reader = ByteReader::new(buffer.as_slice());
        let res = T::decode(&mut reader).unwrap();
        assert_eq!(value, &res);
    }
}

#[test]
fn length_selection_is_exact() {
    assert_eq!(Length::from_usize(0), Some(Length::Tiny(0)));
    assert_eq!(Length::from_usize(15), Some(Length::Tiny(15)));
    assert_eq!(Length::from_usize(16), Some(Length::Bit8(16)));
    assert_eq!(Length::from_usize(255), Some(Length::Bit8(255)));
    assert_eq!(Length::from_usize(256), Some(Length::Bit16(256)));
    assert_eq!(Length::from_usize(65535), Some(Length::Bit16(65535)));
    assert_eq!(Length::from_usize(65536), Some(Length::Bit32(65536)));
    assert_eq!(Length::from_usize(0x7FFFFFFF), Some(Length::Bit32(0x7FFFFFFF)));
    assert_eq!(Length::from_usize(0x80000000), None);
}

#[test]
fn length_encoding_bytes() {
    let mut buffer = Vec::new();
    Length::Bit32(420420).encode(&mut buffer).unwrap();
    assert_eq!(buffer, vec![0x00, 0x06, 0x6A, 0x44]);

    let mut buffer = Vec::new();
    Length::Bit16(42042).encode(&mut buffer).unwrap();
    assert_eq!(buffer, vec![0xA4, 0x3A]);

    let mut buffer = Vec::new();
    Length::Tiny(7).encode(&mut buffer).unwrap();
    assert!(buffer.is_empty());

    assert_eq!(Length::Bit8(200).into_usize(), 200);
    assert_eq!(Length::Tiny(15).into_usize(), 15);

    let mut buffer = Vec::new();
    Length::Bit8(20).encode_as_list_size(&mut buffer).unwrap();
    assert_eq!(buffer, vec![0xD4, 20]);

    let mut buffer = Vec::new();
    Length::Bit8(20).encode_as_dict_size(&mut buffer).unwrap();
    assert_eq!(buffer, vec![0xD8, 20]);
}

#[test]
fn size_reads_follow_the_marker() {
    let mut buffer = Vec::new();
    Length::Bit16(42042).encode(&mut buffer).unwrap();
    let mut reader = ByteReader::new(buffer.as_slice());
    let size = read_dict_size(Marker::Dictionary16, &mut reader).unwrap();
    assert_eq!(size, 42042);

    let mut reader = ByteReader::new(&[]);
    assert_eq!(read_list_size(Marker::TinyList(9), &mut reader), Ok(9));

    let bytes: &[u8] = &[0x05];
    let mut reader = ByteReader::new(bytes);
    assert_eq!(read_string_size(Marker::String8, &mut reader), Ok(5));

    let mut reader = ByteReader::new(&[]);
    match read_list_size(Marker::Null, &mut reader) {
        Err(DecodeError::UnexpectedMarker(Marker::Null)) => {},
        other => panic!("expected UnexpectedMarker, got {:?}", other),
    }

    let negative: &[u8] = &[0xFF, 0x00, 0x00, 0x00];
    let mut reader = ByteReader::new(negative);
    match read_list_size(Marker::List32, &mut reader) {
        Err(DecodeError::CannotReadSizeInfo) => {},
        other => panic!("expected CannotReadSizeInfo, got {:?}", other),
    }
}

#[test]
fn std_structs_pack_unpack() {
    pack_unpack_test(&[Date { days: 7905 }, Date { days: 0 }, Date { days: -365 }]);
    pack_unpack_test(&[Time { nanoseconds: 1234, tz_offset_seconds: 3600 }]);
    pack_unpack_test(&[LocalTime { nanoseconds: 129871 }]);
    pack_unpack_test(&[DateTime { seconds: 100, nanoseconds: 42, tz_offset_minutes: -60 }]);
    pack_unpack_test(&[DateTimeZoneId { seconds: 100, nanoseconds: 42, tz_id: 17 }]);
    pack_unpack_test(&[LocalDateTime { seconds: 100, nanoseconds: 42 }]);
    pack_unpack_test(&[Duration { months: 1, days: 2, seconds: 3, nanoseconds: 4 }]);
}

#[test]
fn date_encodes_with_tag_and_field_count() {
    let date = Date { days: 42 };
    let mut buffer: Vec<u8> = Vec::new();
    date.encode(&mut buffer).unwrap();
    assert_eq!(buffer, vec![0xB1, 0x44, 0x2A]);
}

#[test]
fn structure_wrong_field_count_is_rejected() {
    let bytes: &[u8] = &[0xB2, 0x44, 0x01, 0x02];
    let mut reader = ByteReader::new(bytes);
    match Date::decode(&mut reader) {
        Err(DecodeError::UnexpectedNumberOfFields(expected, got)) => {
            assert_eq!(expected, 1);
            assert_eq!(got, 2);
        },
        other => panic!("expected UnexpectedNumberOfFields, got {:?}", other),
    }
}

#[test]
fn structure_wrong_tag_is_rejected() {
    let bytes: &[u8] = &[0xB1, 0x45, 0x01];
    let mut reader = ByteReader::new(bytes);
    match decode_struct::<Date>(0x44, &mut reader) {
        Err(DecodeError::UnexpectedTagByte(t)) => assert_eq!(t, 0x45),
        other => panic!("expected UnexpectedTagByte, got {:?}", other),
    }
}

#[test]
fn utc_nanoseconds_normalizes() {
    let time = Time { nanoseconds: 5_000_000_000, tz_offset_seconds: 2 };
    assert_eq!(time.utc_nanoseconds(), 3_000_000_000);

    let dt = DateTime { seconds: 2, nanoseconds: 5, tz_offset_minutes: 1 };
    assert_eq!(dt.utc_nanoseconds(), 2_000_000_005 - 60_000_000_000);
}

#[test]
fn tags_track_uniqueness() {
    let mut tags = Tags::with_capacity(4);
    assert_eq!(tags.last_tag(), 0x00);
    tags.add_tag(0x4E);
    assert_eq!(tags.last_tag(), 0x4E);
    tags.add_tag(0x52);
    assert_eq!(tags.last_tag(), 0x52);
}

#[test]
fn property_helpers_round_trip() {
    let mut buffer: Vec<u8> = Vec::new();
    encode_property("age", &42i64, &mut buffer).unwrap();
    assert_eq!(buffer, vec![0x83, b'a', b'g', b'e', 0x2A]);

    let mut reader = ByteReader::new(buffer.as_slice());
    let (key, value): (String, i64) = decode_property(&mut reader).unwrap();
    assert_eq!(key, "age");
    assert_eq!(value, 42);
}

#[test]
fn errors_propagate_unchanged_from_elements() {
    let bytes: &[u8] = &[0x91, 0xD7];
    let mut reader = ByteReader::new(bytes);
    match <Vec<i64>>::decode(&mut reader) {
        Err(DecodeError::UnknownMarkerByte(b)) => assert_eq!(b, 0xD7),
        other => panic!("expected UnknownMarkerByte, got {:?}", other),
    }

    let bytes: &[u8] = &[0xA1, 0x81, 0x6B, 0xC9, 0x00];
    let mut reader = ByteReader::new(bytes);
    match <packs::Dictionary<packs::NoStruct>>::decode(&mut reader) {
        Err(DecodeError::UnexpectedEndOfStream) => {},
        other => panic!("expected UnexpectedEndOfStream, got {:?}", other),
    }
}

#[test]
fn no_struct_reports_its_dedicated_errors() {
    let bytes: &[u8] = &[0x01];
    let mut reader = ByteReader::new(bytes);
    match <packs::NoStruct as Unpack>::decode(&mut reader) {
        Err(DecodeError::UnexpectedMarker(Marker::PlusTinyInt(1))) => {},
        other => panic!("expected UnexpectedMarker, got {:?}", other),
    }

    let bytes: &[u8] = &[0xB1, 0x4E, 0x2A];
    let mut reader = ByteReader::new(bytes);
    match <packs::NoStruct as Unpack>::decode(&mut reader) {
        Err(DecodeError::TryingToDecodeNoStruct) => {},
        other => panic!("expected TryingToDecodeNoStruct, got {:?}", other),
    }
}
