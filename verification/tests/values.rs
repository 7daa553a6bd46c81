use packs::{
    extract_list, extract_list_ref, ByteReader, Bytes, Dictionary, Extract, ExtractRef,
    GenericStruct, NoStruct, Pack, Unpack, Value,
};

#[test]
fn pack_unpack_values() {
    let value: Value<NoStruct> = Value::Boolean(true);

    let mut buffer: Vec<u8> = Vec::new();
    value.encode(&mut buffer).unwrap();
    assert_eq!(buffer, vec![0xC2]);
}

#[test]
fn value_decode_dispatches_every_class() {
    let cases: Vec<(Vec<u8>, Value<NoStruct>)> = vec![
        (vec![0xC0], Value::Null),
        (vec![0xC2], Value::Boolean(true)),
        (vec![0xC3], Value::Boolean(false)),
        (vec![0x2A], Value::Integer(42)),
        (vec![0xC8, 0xEF], Value::Integer(-17)),
        (
            vec![0x85, 0x68, 0x65, 0x6C, 0x6C, 0x6F],
            Value::String(String::from("hello")),
        ),
        (
            vec![0xCC, 0x02, 0x01, 0x02],
            Value::Bytes(Bytes(vec![0x01, 0x02])),
        ),
        (
            vec![0x92, 0x01, 0x02],
            Value::List(vec![Value::Integer(1), Value::Integer(2)]),
        ),
    ];
    for (bytes, expected) in cases {
        let mut reader = ByteReader::new(bytes.as_slice());
        let decoded = <Value<NoStruct>>::decode(&mut reader).unwrap();
        assert_eq!(decoded, expected);
        assert_eq!(reader.position(), bytes.len());

        let mut reencoded: Vec<u8> = Vec::new();
        decoded.encode(&mut reencoded).unwrap();
        assert_eq!(reencoded, bytes);
    }
}

#[test]
fn value_float_round_trip() {
    let value: Value<NoStruct> = Value::Float((42.42f64).to_bits());
    let mut buffer: Vec<u8> = Vec::new();
    value.encode(&mut buffer).unwrap();
    assert_eq!(buffer[0], 0xC1);
    assert_eq!(buffer.len(), 9);

    let mut reader = ByteReader::new(buffer.as_slice());
    let decoded = <Value<NoStruct>>::decode(&mut reader).unwrap();
    match decoded {
        Value::Float(bits) => assert_eq!(f64::from_bits(bits), 42.42),
        other => panic!("expected a float value, got {:?}", other),
    }
}

#[test]
fn value_rejects_structures_for_no_struct() {
    let bytes: &[u8] = &[0xB1, 0x4E, 0x2A];
    let mut reader = ByteReader::new(bytes);
    match <Value<NoStruct>>::decode(&mut reader) {
        Err(packs::DecodeError::TryingToDecodeNoStruct) => {},
        other => panic!("expected TryingToDecodeNoStruct, got {:?}", other),
    }
}

#[test]
fn pack_unpack_hashmap_int() {
    let mut dict: Dictionary<NoStruct> = Dictionary::new();
    dict.add_property("hello", 42i64);
    dict.add_property("foo", -1i64);
    dict.add_property("\u{DF}\u{DF}$", 0i64);

    let mut buffer: Vec<u8> = Vec::new();
    dict.encode(&mut buffer).unwrap();
    let mut reader = ByteReader::new(buffer.as_slice());
    let back = <Dictionary<NoStruct>>::decode(&mut reader).unwrap();
    assert_eq!(dict, back);

    let empty: Dictionary<NoStruct> = Dictionary::new();
    let mut buffer: Vec<u8> = Vec::new();
    empty.encode(&mut buffer).unwrap();
    assert_eq!(buffer, vec![0xA0]);
    let mut reader = ByteReader::new(buffer.as_slice());
    let back = <Dictionary<NoStruct>>::decode(&mut reader).unwrap();
    assert_eq!(empty, back);
}

#[test]
fn dictionary_repeated_key_replaces() {
    let mut dict: Dictionary<NoStruct> = Dictionary::new();
    assert_eq!(dict.add_property("k", 1i64), None);
    let prev = dict.add_property("k", 2i64);
    assert_eq!(prev, Some(Value::Integer(1)));
    assert_eq!(dict.len(), 1);
    assert_eq!(dict.get_property("k"), Some(&Value::Integer(2)));

    let bytes_with_duplicate: &[u8] = &[0xA2, 0x81, 0x6B, 0x01, 0x81, 0x6B, 0x02];
    let mut reader = ByteReader::new(bytes_with_duplicate);
    let decoded = <Dictionary<NoStruct>>::decode(&mut reader).unwrap();
    assert_eq!(decoded.len(), 1);
    assert_eq!(decoded.get_property("k"), Some(&Value::Integer(2)));
}

#[test]
fn dictionary_properties() {
    let mut dict: Dictionary<NoStruct> = Dictionary::with_capacity(2);
    dict.add_property("name", "Hans");
    dict.add_property("age", 32i64);

    assert!(dict.has_property("name"));
    assert!(!dict.has_property("nope"));
    assert_eq!(dict.len(), 2);
    assert_eq!(dict.get_property("age"), Some(&Value::Integer(32)));
    assert_eq!(dict.get_property_typed::<i64>("age"), Some(&32));
    assert_eq!(dict.extract_property("age"), Some(Value::Integer(32)));
    assert_eq!(dict.len(), 1);
    assert_eq!(dict.extract_property_typed::<String>("name"), Some(String::from("Hans")));
    assert_eq!(dict.len(), 0);
    assert_eq!(dict.extract_property("gone"), None);
}

#[test]
fn dictionary_inner_round_trip() {
    let mut dict: Dictionary<NoStruct> = Dictionary::new();
    dict.add_property("a", 1i64);
    let inner = dict.into_inner();
    assert_eq!(inner.len(), 1);
    let rebuilt = Dictionary::from_inner(inner);
    assert_eq!(rebuilt.get_property("a"), Some(&Value::Integer(1)));
    assert_eq!(rebuilt.properties().len(), 1);
    assert_eq!(rebuilt.inner().len(), 1);
}

#[test]
fn extract_values() {
    let value: Value<NoStruct> = Value::Integer(42);
    assert_eq!(i64::extract(value), Some(42));

    let value: Value<NoStruct> = Value::Boolean(true);
    assert_eq!(i64::extract(value), None);

    assert_eq!(<Option<bool>>::extract(<Value<NoStruct>>::Boolean(true)), Some(Some(true)));
    assert_eq!(<Option<bool>>::extract(<Value<NoStruct>>::Null), Some(None));

    assert_eq!(<bool>::extract_opt_ref(&<Value<NoStruct>>::Boolean(true)), Some(Some(&true)));
    assert_eq!(<bool>::extract_opt_ref(&<Value<NoStruct>>::Null), Some(None));

    assert_eq!(<bool>::extract_ref(&<Value<NoStruct>>::Null), None);
}

#[test]
fn extract_lists() {
    let value: Value<NoStruct> = Value::List(vec![
        Value::Integer(42),
        Value::Integer(-1),
        Value::Integer(3332),
    ]);
    let ints = extract_list_ref::<NoStruct, i64>(&value);
    assert_eq!(ints, Some(vec![&42, &-1, &3332]));
    let ints = extract_list::<NoStruct, i64>(value);
    assert_eq!(ints, Some(vec![42, -1, 3332]));

    let mixed: Value<NoStruct> = Value::List(vec![Value::Integer(42), Value::Boolean(false)]);
    assert_eq!(extract_list_ref::<NoStruct, i64>(&mixed), None);
    assert_eq!(extract_list::<NoStruct, i64>(mixed), None);

    let not_a_list: Value<NoStruct> = Value::Integer(3);
    assert_eq!(extract_list::<NoStruct, i64>(not_a_list), None);
}

#[test]
fn value_from_conversions() {
    let v: Value<NoStruct> = Value::from(42i64);
    assert_eq!(v, Value::Integer(42));
    let v: Value<NoStruct> = Value::from(true);
    assert_eq!(v, Value::Boolean(true));
    let v: Value<NoStruct> = Value::from("Jane Doe");
    assert_eq!(v, Value::String(String::from("Jane Doe")));
    let v: Value<NoStruct> = Value::from(String::from("x"));
    assert_eq!(v, Value::String(String::from("x")));
    let v: Value<NoStruct> = Value::from(vec![Value::Integer(1)]);
    assert_eq!(v, Value::List(vec![Value::Integer(1)]));
}

#[test]
fn value_clone_is_deep() {
    let mut dict: Dictionary<NoStruct> = Dictionary::new();
    dict.add_property("k", 7i64);
    let value: Value<NoStruct> = Value::List(vec![
        Value::Dictionary(dict),
        Value::String(String::from("s")),
        Value::Bytes(Bytes(vec![1, 2, 3])),
    ]);
    let copy = value.clone();
    assert_eq!(value, copy);
}

#[test]
fn node_like_structure_bytes() {
    let mut out: Vec<u8> = Vec::new();
    packs::Marker::Structure(3, 0x4E).encode(&mut out).unwrap();
    42i64.encode(&mut out).unwrap();
    vec![String::from("Person")].encode(&mut out).unwrap();
    let mut props: Dictionary<NoStruct> = Dictionary::new();
    props.add_property("name", "Hans");
    props.encode(&mut out).unwrap();

    assert_eq!(
        out,
        vec![
            0xB3, 0x4E, 0x2A, 0x91, 0x86, b'P', b'e', b'r', b's', b'o', b'n', 0xA1, 0x84, b'n',
            b'a', b'm', b'e', 0x84, b'H', b'a', b'n', b's'
        ]
    );
}

#[test]
fn generic_struct_round_trip() {
    let s = GenericStruct {
        tag_byte: 0x01,
        fields: vec![
            Value::Float((42.0f64).to_bits()),
            Value::String(String::from("hello world")),
        ],
    };

    let value: Value<GenericStruct> = Value::Structure(s);

    let mut buffer = Vec::new();
    value.encode(&mut buffer).unwrap();

    let mut reader = ByteReader::new(buffer.as_slice());
    let res = <Value<GenericStruct>>::decode(&mut reader).unwrap();

    assert_eq!(res, value);
}

#[test]
fn generic_struct_accepts_any_tag() {
    let bytes: &[u8] = &[0xB3, 0x4E, 0x2A, 0x91, 0x86, b'P', b'e', b'r', b's', b'o', b'n', 0xA1,
        0x84, b'n', b'a', b'm', b'e', 0x84, b'H', b'a', b'n', b's'];
    let mut reader = ByteReader::new(bytes);
    let decoded = <Value<GenericStruct>>::decode(&mut reader).unwrap();
    match &decoded {
        Value::Structure(g) => {
            assert_eq!(g.tag_byte, 0x4E);
            assert_eq!(g.fields.len(), 3);
            assert_eq!(g.fields[0], Value::Integer(42));
        },
        other => panic!("expected a structure, got {:?}", other),
    }

    let mut reencoded = Vec::new();
    decoded.encode(&mut reencoded).unwrap();
    assert_eq!(reencoded, bytes.to_vec());
}

#[test]
fn generic_struct_field_count_ceiling() {
    let wide = GenericStruct {
        tag_byte: 0x01,
        fields: (0..16).map(|i| Value::Integer(i)).collect(),
    };
    let mut buffer = Vec::new();
    match wide.encode(&mut buffer) {
        Err(packs::EncodeError::TooManyStructFields(n)) => assert_eq!(n, 16),
        other => panic!("expected TooManyStructFields, got {:?}", other),
    }
}
