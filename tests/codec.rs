use rro_gvas::file::{DataEntry, EngineVersion, GVASFile, Property};
use rro_gvas::text::TextProperty;
use rro_gvas::value::Value;
use rro_gvas::wire::{read_string, write_string, write_u32, write_u64, write_u8};
use rro_gvas::GVASError;

fn string_field(s: &str) -> Vec<u8> {
    let mut v = Vec::new();
    write_string(&mut v, s);
    v
}

fn minimal_header() -> Vec<u8> {
    let mut d = b"GVAS".to_vec();
    write_u32(&mut d, 0);
    write_u32(&mut d, 0);
    d.extend_from_slice(&[0, 0, 0, 0, 0, 0]);
    write_u32(&mut d, 0);
    write_string(&mut d, "");
    write_u32(&mut d, 0);
    write_u32(&mut d, 0);
    write_string(&mut d, "");
    d
}

fn float_file() -> Vec<u8> {
    let mut d = minimal_header();
    write_string(&mut d, "X");
    write_string(&mut d, "ArrayProperty");
    write_u64(&mut d, 12);
    write_string(&mut d, "FloatProperty");
    write_u8(&mut d, 0);
    write_u32(&mut d, 2);
    write_u32(&mut d, 1.0f32.to_bits());
    write_u32(&mut d, 2.5f32.to_bits());
    d
}

fn struct_array(name: &str, inner_name: &str, kind: &str, guid_byte: u8, size: u64) -> Vec<u8> {
    let mut d = Vec::new();
    write_string(&mut d, "ArrayProperty");
    write_u64(&mut d, 0);
    write_string(&mut d, "StructProperty");
    write_u8(&mut d, 0);
    write_u32(&mut d, 1);
    write_string(&mut d, inner_name);
    write_string(&mut d, "StructProperty");
    write_u64(&mut d, size);
    write_string(&mut d, kind);
    let mut guid = [0u8; 16];
    guid[3] = guid_byte;
    d.extend_from_slice(&guid);
    write_u8(&mut d, 0);
    write_u32(&mut d, 1);
    write_u32(&mut d, 2);
    write_u32(&mut d, 3);
    let _ = name;
    d
}

#[test]
fn empty_string_is_a_zero_length() {
    let v = string_field("");
    assert_eq!(v, vec![0, 0, 0, 0]);
    assert_eq!(read_string(&v, 0), Ok((String::new(), 4)));
}

#[test]
fn one_letter_string_layout() {
    let v = string_field("A");
    assert_eq!(v, vec![2, 0, 0, 0, b'A', 0]);
    assert_eq!(read_string(&v, 0), Ok((String::from("A"), 6)));
}

#[test]
fn missing_terminator_is_malformed() {
    let v = vec![3, 0, 0, 0, b'a', b'b', 1];
    assert_eq!(read_string(&v, 0), Err(GVASError::MalformedString));
}

#[test]
fn short_string_is_io_error() {
    let v = vec![5, 0, 0, 0, b'a', 0];
    assert_eq!(read_string(&v, 0), Err(GVASError::IOError));
    assert_eq!(read_string(&[1, 0], 0), Err(GVASError::IOError));
}

#[test]
fn windows_1252_bytes_are_decoded() {
    let v = vec![2, 0, 0, 0, 0xE9, 0];
    assert_eq!(read_string(&v, 0), Ok((String::from("\u{e9}"), 6)));
    let v = vec![3, 0, 0, 0, 0x80, b'x', 0];
    assert_eq!(read_string(&v, 0), Ok((String::from("\u{20ac}x"), 7)));
}

#[test]
fn utf16_strings_are_decoded() {
    let v = vec![0xFE, 0xFF, 0xFF, 0xFF, b'A', 0, 0, 0];
    assert_eq!(read_string(&v, 0), Ok((String::from("A"), 8)));
    let v = vec![0xFE, 0xFF, 0xFF, 0xFF, b'A', 0, 1, 0];
    assert_eq!(read_string(&v, 0), Err(GVASError::MalformedString));
}

#[test]
fn unknown_struct_kind_is_unsupported() {
    let d = struct_array("X", "X", "Foo", 0, 12);
    assert_eq!(Value::read(&d, 0, "X"), Err(GVASError::UnsupportedFormat));
}

#[test]
fn vector_struct_array_reads() {
    let d = struct_array("X", "X", "Vector", 0, 12);
    assert_eq!(Value::read(&d, 0, "X"), Ok((Value::VectorArray(vec![(1, 2, 3)]), d.len())));
    let d = struct_array("X", "X", "Rotator", 0, 12);
    assert_eq!(Value::read(&d, 0, "X"), Ok((Value::RotatorArray(vec![(1, 2, 3)]), d.len())));
}

#[test]
fn struct_array_checks() {
    let d = struct_array("X", "Y", "Vector", 0, 12);
    assert_eq!(Value::read(&d, 0, "X"), Err(GVASError::NameMismatch));
    let d = struct_array("X", "X", "Vector", 7, 12);
    assert_eq!(Value::read(&d, 0, "X"), Err(GVASError::UnsupportedGuid));
    let d = struct_array("X", "X", "Vector", 0, 24);
    assert_eq!(Value::read(&d, 0, "X"), Err(GVASError::UnsupportedFormat));
}

#[test]
fn struct_array_written_length() {
    let mut out = Vec::new();
    let len = Value::write_struct_array(&mut out, &vec![(1, 2, 3), (4, 5, 6)], "Loc", "Vector");
    // count, name, "StructProperty", element size, kind, GUID and flag, elements
    assert_eq!(len, 4 + (4 + 4) + (4 + 15) + 8 + (4 + 7) + 17 + 24);
    assert_eq!(out.len() as u64, (4 + 15) + 1 + len);
}

#[test]
fn unknown_array_type_is_unsupported() {
    let mut d = Vec::new();
    write_string(&mut d, "ArrayProperty");
    write_u64(&mut d, 0);
    write_string(&mut d, "NameProperty");
    assert_eq!(Value::read(&d, 0, "X"), Err(GVASError::UnsupportedFormat));
    let mut d = Vec::new();
    write_string(&mut d, "MapProperty");
    assert_eq!(Value::read(&d, 0, "X"), Err(GVASError::UnsupportedFormat));
}

#[test]
fn non_zero_flag_is_unsupported() {
    let mut d = Vec::new();
    write_string(&mut d, "StrProperty");
    write_u64(&mut d, 6);
    write_u8(&mut d, 1);
    write_string(&mut d, "a");
    assert_eq!(Value::read(&d, 0, "X"), Err(GVASError::UnsupportedFlag));
    let mut d = Vec::new();
    write_string(&mut d, "ArrayProperty");
    write_u64(&mut d, 4);
    write_string(&mut d, "IntProperty");
    write_u8(&mut d, 2);
    write_u32(&mut d, 0);
    assert_eq!(Value::read(&d, 0, "X"), Err(GVASError::UnsupportedFlag));
}

#[test]
fn values_round_trip() {
    let values = vec![
        Value::String(String::from("hello")),
        Value::StringArray(vec![String::from("a"), String::new(), String::from("bc")]),
        Value::Int32Array(vec![0, 7, u32::MAX]),
        Value::BoolArray(vec![true, false, true]),
        Value::FloatArray(vec![1.5f32.to_bits(), (-0.0f32).to_bits()]),
        Value::TextArray(vec![
            TextProperty::Empty,
            TextProperty::Simple(String::from("t")),
            TextProperty::FmtStr(String::from("one"), String::new()),
        ]),
        Value::VectorArray(vec![(1, 2, 3)]),
        Value::RotatorArray(vec![(4, 5, 6), (7, 8, 9)]),
        Value::Empty,
    ];
    for v in values {
        let mut out = Vec::new();
        v.write(&mut out, "Name");
        assert_eq!(Value::read(&out, 0, "Name"), Ok((v.clone(), out.len())));
    }
}

#[test]
fn bool_array_length_and_bytes() {
    let mut out = Vec::new();
    let len = Value::write_bool_array(&mut out, &vec![true, false]);
    assert_eq!(len, 6);
    let mut expected = string_field("BoolProperty");
    expected.extend_from_slice(&[0, 2, 0, 0, 0, 1, 0]);
    assert_eq!(out, expected);
}

#[test]
fn int_and_float_array_lengths() {
    let mut out = Vec::new();
    assert_eq!(Value::write_int_array(&mut out, &vec![1, 2, 3]), 16);
    let mut out = Vec::new();
    assert_eq!(Value::write_float_array(&mut out, &vec![1.0f32.to_bits()]), 8);
    let mut out = Vec::new();
    assert_eq!(Value::write_str_array(&mut out, &vec![String::from("ab"), String::new()]), 4 + 7 + 4);
    let mut out = Vec::new();
    assert_eq!(Value::write_text_array(&mut out, &vec![TextProperty::Empty]), 4 + 9);
}

#[test]
fn text_round_trip_and_lengths() {
    let texts = vec![
        (TextProperty::Empty, 9u64),
        (TextProperty::Simple(String::from("abc")), 9 + 8),
        (TextProperty::FmtStr(String::new(), String::new()), 4 + 78 + 4 + 12 + 4),
        (TextProperty::FmtStr(String::from("x"), String::from("yz")), 4 + 78 + 10 + 12 + 11),
    ];
    for (t, expected) in texts {
        let mut out = Vec::new();
        let len = t.write(&mut out);
        assert_eq!(len, expected);
        assert_eq!(out.len() as u64, len);
        assert_eq!(TextProperty::read(&out, 0), Ok((t.clone(), out.len())));
    }
}

#[test]
fn text_with_unknown_layout_is_unsupported() {
    let mut out = Vec::new();
    TextProperty::FmtStr(String::from("a"), String::from("b")).write(&mut out);
    out[4] = 9;
    assert_eq!(TextProperty::read(&out, 0), Err(GVASError::UnsupportedFormat));
    let d = vec![0, 0, 0, 0, 5, 0, 0, 0, 0];
    assert_eq!(TextProperty::read(&d, 0), Err(GVASError::UnsupportedFormat));
}

#[test]
fn minimal_float_file() {
    let d = float_file();
    let f = GVASFile::read(&d).unwrap();
    assert_eq!(f.properties.len(), 1);
    assert_eq!(f.properties[0].name, "X");
    assert_eq!(
        f.properties[0].val,
        Value::FloatArray(vec![1.0f32.to_bits(), 2.5f32.to_bits()])
    );
    assert!(f.tail.is_empty());
    let mut out = Vec::new();
    f.write(&mut out);
    assert_eq!(out, d);
}

#[test]
fn trailing_bytes_are_kept() {
    let mut d = float_file();
    d.extend_from_slice(&[0, 0, 0, 0, 9, 9]);
    let f = GVASFile::read(&d).unwrap();
    assert_eq!(f.properties.len(), 1);
    assert_eq!(f.tail, vec![0, 0, 0, 0, 9, 9]);
    let mut out = Vec::new();
    f.write(&mut out);
    assert_eq!(out, d);
}

#[test]
fn bad_magic_and_short_header() {
    let mut d = float_file();
    d[0] = b'X';
    assert_eq!(GVASFile::read(&d), Err(GVASError::BadMagic));
    assert_eq!(GVASFile::read(b"GV"), Err(GVASError::IOError));
    assert_eq!(GVASFile::read(b"GVAS\x01\x00"), Err(GVASError::IOError));
}

#[test]
fn header_fields_round_trip() {
    let f = GVASFile {
        save_game_version: 2,
        package_version: 517,
        engine_version: EngineVersion {
            major: 4,
            minor: 27,
            patch: 2,
            build: 1234,
            build_id: String::from("++UE4+Release-4.27"),
        },
        custom_format_version: 3,
        custom_format_data: vec![DataEntry { guid: [7u8; 16], value: 9 }],
        save_game_type: String::from("/Script/arr.arrSaveGame"),
        properties: vec![
            Property { name: String::from("SaveName"), val: Value::String(String::from("mine")) },
            Property { name: String::from("None"), val: Value::Empty },
        ],
        tail: vec![],
    };
    let mut out = Vec::new();
    f.write(&mut out);
    assert_eq!(GVASFile::read(&out), Ok(f.clone()));
    let mut again = Vec::new();
    GVASFile::read(&out).unwrap().write(&mut again);
    assert_eq!(again, out);
}

#[test]
fn engine_version_and_entry_layout() {
    let e = EngineVersion { major: 1, minor: 2, patch: 3, build: 4, build_id: String::new() };
    let mut out = Vec::new();
    e.write(&mut out);
    assert_eq!(out, vec![1, 0, 2, 0, 3, 0, 4, 0, 0, 0, 0, 0, 0, 0]);
    assert_eq!(EngineVersion::read(&out, 0), Ok((e, 14)));
    let entry = DataEntry { guid: [1u8; 16], value: 0x01020304 };
    let mut out = Vec::new();
    entry.write(&mut out);
    assert_eq!(&out[16..], &[4, 3, 2, 1]);
    assert_eq!(DataEntry::read(&out, 0), Ok((entry, 20)));
    assert_eq!(DataEntry::read(&out, 5), Err(GVASError::IOError));
}

#[test]
fn property_list_ends_at_empty_name() {
    let mut d = Vec::new();
    write_string(&mut d, "");
    assert_eq!(Property::read(&d, 0), Ok((None, 0)));
    assert_eq!(Property::read(&[1, 0], 0), Err(GVASError::IOError));
    assert_eq!(Property::read(&[1, 0], 2), Ok((None, 2)));
    let mut d = Vec::new();
    write_string(&mut d, "P");
    write_string(&mut d, "");
    assert_eq!(
        Property::read(&d, 0),
        Ok((Some(Property { name: String::from("P"), val: Value::Empty }), 10))
    );
}

#[test]
fn string_with_declared_length() {
    let v = string_field("abc");
    assert_eq!(rro_gvas::wire::read_string_len(&v, 0, 8), Ok((String::from("abc"), 8)));
    assert_eq!(rro_gvas::wire::read_string_len(&v, 0, 9), Err(GVASError::UnsupportedFormat));
}

#[test]
fn truncated_file_is_io_error() {
    let d = float_file();
    let header_len = minimal_header().len();
    for cut in 1..d.len() {
        let r = GVASFile::read(&d[..cut]);
        if cut == header_len {
            assert_eq!(r.map(|f| f.properties.len()), Ok(0));
        } else {
            assert_eq!(r, Err(GVASError::IOError), "cut at {}", cut);
        }
    }
    let mut d = minimal_header();
    d.extend_from_slice(&[5, 0, 0]);
    assert_eq!(GVASFile::read(&d), Err(GVASError::IOError));
}

#[test]
fn windows_1252_table_bytes() {
    let v = vec![4, 0, 0, 0, 0x81, 0x9F, 0xA0, 0];
    assert_eq!(read_string(&v, 0), Ok((String::from("\u{81}\u{178}\u{a0}"), 8)));
}
