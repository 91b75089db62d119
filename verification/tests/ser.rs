use serde_gff::error::Error;
use serde_gff::index::LabelIndex;
use serde_gff::resref::ResRef;
use serde_gff::ser::{FieldSerializer, ListSerializer, Serializer, StructSerializer};
use serde_gff::sig::Signature;
use serde_gff::string::{LocString, StrRef, StringKey, SubString};
use serde_gff::value::SimpleValue;
use serde_gff::ver::Version;

/// The bytes of the file that `ser` holds, with the signature `GFF `.
fn to_vec(ser: &Serializer) -> Vec<u8> {
    let mut out = Vec::new();
    ser.write(&mut out, Signature::from(*b"GFF "), Version::v3_2())
        .expect("Serialization fail");
    out
}

/// A serializer with the struct at the top begun, with `len` fields.
fn begin(len: usize) -> (Serializer, StructSerializer) {
    let mut ser = Serializer::new();
    let root = ser.serialize_struct(len).expect("can't begin struct");
    (ser, root)
}

/// A serializer with the struct at the top begun, and its one field `value`.
fn begin_value() -> (Serializer, StructSerializer, FieldSerializer) {
    let (mut ser, root) = begin(1);
    let field = root.begin_field(&mut ser, "value").expect("can't begin field");
    (ser, root, field)
}

/// The file of a struct whose one field `value` holds `value`.
fn wrapped(value: SimpleValue) -> Vec<u8> {
    let (mut ser, root) = begin(1);
    root.serialize_field(&mut ser, "value", &value).expect("can't write field");
    to_vec(&ser)
}

/// The file of a struct whose one field `value` is a list of structs, each
/// with one field `value`.
fn list_of(items: &[SimpleValue]) -> Vec<u8> {
    let (mut ser, root, field) = begin_value();
    let list: ListSerializer = field.serialize_seq(&mut ser, Some(items.len()));
    for item in items {
        list.serialize_element(&mut ser).expect("can't add item");
        let s = ser.serialize_struct(1).expect("can't begin item");
        s.serialize_field(&mut ser, "value", item).expect("can't write field");
        s.end();
    }
    list.end();
    root.end_field(&mut ser, field.index);
    root.end();
    to_vec(&ser)
}

const HEAD: [u8; 8] = [b'G', b'F', b'F', b' ', b'V', b'3', b'.', b'2'];

const VALUE: [u8; 16] = [b'v', b'a', b'l', b'u', b'e', 0, 0, 0, 0, 0, 0, 0, 0, 0, 0, 0];

/// The file of a struct without fields.
fn unit_top() -> Vec<u8> {
    let mut v = HEAD.to_vec();
    v.extend_from_slice(&[
        56, 0, 0, 0, 1, 0, 0, 0, //
        68, 0, 0, 0, 0, 0, 0, 0, //
        68, 0, 0, 0, 0, 0, 0, 0, //
        68, 0, 0, 0, 0, 0, 0, 0, //
        68, 0, 0, 0, 0, 0, 0, 0, //
        68, 0, 0, 0, 0, 0, 0, 0, //
        0, 0, 0, 0, 0, 0, 0, 0, 0, 0, 0, 0,
    ]);
    v
}

/// The file of a struct whose one field `value` is a struct without fields.
fn unit_field() -> Vec<u8> {
    let mut v = HEAD.to_vec();
    v.extend_from_slice(&[
        56, 0, 0, 0, 2, 0, 0, 0, //
        80, 0, 0, 0, 1, 0, 0, 0, //
        92, 0, 0, 0, 1, 0, 0, 0, //
        108, 0, 0, 0, 0, 0, 0, 0, //
        108, 0, 0, 0, 0, 0, 0, 0, //
        108, 0, 0, 0, 0, 0, 0, 0, //
        0, 0, 0, 0, 0, 0, 0, 0, 1, 0, 0, 0, //
        0, 0, 0, 0, 0, 0, 0, 0, 0, 0, 0, 0, //
        14, 0, 0, 0, 0, 0, 0, 0, 1, 0, 0, 0,
    ]);
    v.extend_from_slice(&VALUE);
    v
}

/// The file of a struct whose one field `value` lies in the field record.
fn primitive_wrapped(type_: u8, b: [u8; 4]) -> Vec<u8> {
    let mut v = HEAD.to_vec();
    v.extend_from_slice(&[
        56, 0, 0, 0, 1, 0, 0, 0, //
        68, 0, 0, 0, 1, 0, 0, 0, //
        80, 0, 0, 0, 1, 0, 0, 0, //
        96, 0, 0, 0, 0, 0, 0, 0, //
        96, 0, 0, 0, 0, 0, 0, 0, //
        96, 0, 0, 0, 0, 0, 0, 0, //
        0, 0, 0, 0, 0, 0, 0, 0, 1, 0, 0, 0, //
        type_, 0, 0, 0, 0, 0, 0, 0, b[0], b[1], b[2], b[3],
    ]);
    v.extend_from_slice(&VALUE);
    v
}

/// The file of a struct whose one field `value` lies in the field data.
fn complex_wrapped(type_: u8, bytes: &[u8]) -> Vec<u8> {
    let count = bytes.len() as u8;
    let mut v = HEAD.to_vec();
    v.extend_from_slice(&[
        56, 0, 0, 0, 1, 0, 0, 0, //
        68, 0, 0, 0, 1, 0, 0, 0, //
        80, 0, 0, 0, 1, 0, 0, 0, //
        96, 0, 0, 0, count, 0, 0, 0, //
        96 + count, 0, 0, 0, 0, 0, 0, 0, //
        96 + count, 0, 0, 0, 0, 0, 0, 0, //
        0, 0, 0, 0, 0, 0, 0, 0, 1, 0, 0, 0, //
        type_, 0, 0, 0, 0, 0, 0, 0, 0, 0, 0, 0,
    ]);
    v.extend_from_slice(&VALUE);
    v.extend_from_slice(bytes);
    v
}

/// The file of a struct whose one field `value` is a list of structs, each
/// with one field `value` that lies in the field record.
fn list_wrapped(items: &[(u8, [u8; 4])]) -> Vec<u8> {
    let cnt = items.len() as u8;
    let len = (1 + cnt) * 4;
    let mut v = HEAD.to_vec();
    v.extend_from_slice(&[
        56, 0, 0, 0, 1 + cnt, 0, 0, 0, //
        68 + cnt * 4 * 3, 0, 0, 0, 1 + cnt, 0, 0, 0, //
        80 + cnt * 4 * 3 * 2, 0, 0, 0, 1, 0, 0, 0, //
        96 + cnt * 4 * 3 * 2, 0, 0, 0, 0, 0, 0, 0, //
        96 + cnt * 4 * 3 * 2, 0, 0, 0, 0, 0, 0, 0, //
        96 + cnt * 4 * 3 * 2, 0, 0, 0, len, 0, 0, 0, //
        0, 0, 0, 0, 0, 0, 0, 0, 1, 0, 0, 0,
    ]);
    for i in 0..cnt {
        v.extend_from_slice(&[0, 0, 0, 0, i + 1, 0, 0, 0, 1, 0, 0, 0]);
    }
    v.extend_from_slice(&[15, 0, 0, 0, 0, 0, 0, 0, 0, 0, 0, 0]);
    for (type_, b) in items {
        v.extend_from_slice(&[*type_, 0, 0, 0, 0, 0, 0, 0, b[0], b[1], b[2], b[3]]);
    }
    v.extend_from_slice(&VALUE);
    v.extend_from_slice(&[cnt, 0, 0, 0]);
    for j in 0..cnt {
        v.extend_from_slice(&[j + 1, 0, 0, 0]);
    }
    v
}

#[test]
fn mod_test_simple_numbers() {
    assert_eq!(wrapped(SimpleValue::Byte(42)), primitive_wrapped(0, [0x2A, 0, 0, 0]));
    assert_eq!(wrapped(SimpleValue::Word(42)), primitive_wrapped(2, [0x2A, 0, 0, 0]));
    assert_eq!(wrapped(SimpleValue::Dword(42)), primitive_wrapped(4, [0x2A, 0, 0, 0]));

    assert_eq!(wrapped(SimpleValue::Char(-42)), primitive_wrapped(1, [0xD6, 0, 0, 0]));
    assert_eq!(wrapped(SimpleValue::Short(-42)), primitive_wrapped(3, [0xD6, 0xFF, 0, 0]));
    assert_eq!(wrapped(SimpleValue::Int(-42)), primitive_wrapped(5, [0xD6, 0xFF, 0xFF, 0xFF]));

    assert_eq!(
        wrapped(SimpleValue::Float(42f32.to_bits())),
        primitive_wrapped(8, [0, 0, 0x28, 0x42])
    );
    assert_eq!(wrapped(SimpleValue::Float(0f32.to_bits())), primitive_wrapped(8, [0, 0, 0, 0]));
    assert_eq!(
        wrapped(SimpleValue::Float((-42f32).to_bits())),
        primitive_wrapped(8, [0, 0, 0x28, 0xC2])
    );
}

#[test]
fn mod_test_complex_numbers() {
    assert_eq!(
        wrapped(SimpleValue::Dword64(42)),
        complex_wrapped(6, &[0x2A, 0, 0, 0, 0, 0, 0, 0])
    );
    assert_eq!(
        wrapped(SimpleValue::Int64(-42)),
        complex_wrapped(7, &[0xD6, 0xFF, 0xFF, 0xFF, 0xFF, 0xFF, 0xFF, 0xFF])
    );

    assert_eq!(
        wrapped(SimpleValue::Double(42f64.to_bits())),
        complex_wrapped(9, &[0, 0, 0, 0, 0, 0, 0x45, 0x40])
    );
    assert_eq!(
        wrapped(SimpleValue::Double(0f64.to_bits())),
        complex_wrapped(9, &[0, 0, 0, 0, 0, 0, 0, 0])
    );
    assert_eq!(
        wrapped(SimpleValue::Double((-42f64).to_bits())),
        complex_wrapped(9, &[0, 0, 0, 0, 0, 0, 0x45, 0xC0])
    );
}

#[test]
fn test_bool() {
    let (mut ser, root, field) = begin_value();
    field.serialize_bool(&mut ser, true);
    root.end_field(&mut ser, field.index);
    assert_eq!(to_vec(&ser), primitive_wrapped(0, [1, 0, 0, 0]));

    let (mut ser, root, field) = begin_value();
    field.serialize_bool(&mut ser, false);
    root.end_field(&mut ser, field.index);
    assert_eq!(to_vec(&ser), primitive_wrapped(0, [0, 0, 0, 0]));
}

#[test]
fn test_string() {
    let slice = "юникод";
    let expected = complex_wrapped(
        10,
        &[12, 0, 0, 0, 0xD1, 0x8E, 0xD0, 0xBD, 0xD0, 0xB8, 0xD0, 0xBA, 0xD0, 0xBE, 0xD0, 0xB4],
    );
    let (mut ser, root, field) = begin_value();
    field.serialize_str(&mut ser, slice).expect("can't write text");
    root.end_field(&mut ser, field.index);
    assert_eq!(to_vec(&ser), expected);
    assert_eq!(wrapped(SimpleValue::String(slice.to_owned())), expected);
}

#[test]
fn test_bytes() {
    let array = b"Array with length more then 32 bytes";
    let mut payload = vec![36, 0, 0, 0];
    payload.extend_from_slice(array);
    let expected = complex_wrapped(13, &payload);

    let (mut ser, root, field) = begin_value();
    field.serialize_bytes(&mut ser, array.as_ref()).expect("can't write bytes");
    root.end_field(&mut ser, field.index);
    assert_eq!(to_vec(&ser), expected);

    assert_eq!(wrapped(SimpleValue::Void(array.to_vec())), expected);
}

#[test]
fn mod_test_none() {
    // a value that is nothing, at the top of the file
    let mut ser = Serializer::new();
    ser.serialize_unit().expect("can't write unit");
    assert_eq!(to_vec(&ser), unit_top());

    // and as a field
    let (mut ser, root, field) = begin_value();
    field.serialize_unit(&mut ser).expect("can't write unit");
    root.end_field(&mut ser, field.index);
    assert_eq!(to_vec(&ser), unit_field());
}

#[test]
fn mod_test_some() {
    assert_eq!(wrapped(SimpleValue::Byte(42)), primitive_wrapped(0, [0x2A, 0, 0, 0]));
    assert_eq!(wrapped(SimpleValue::Word(42)), primitive_wrapped(2, [0x2A, 0, 0, 0]));
    assert_eq!(wrapped(SimpleValue::Dword(42)), primitive_wrapped(4, [0x2A, 0, 0, 0]));
    assert_eq!(
        wrapped(SimpleValue::Dword64(42)),
        complex_wrapped(6, &[0x2A, 0, 0, 0, 0, 0, 0, 0])
    );

    assert_eq!(wrapped(SimpleValue::Char(-42)), primitive_wrapped(1, [0xD6, 0, 0, 0]));
    assert_eq!(wrapped(SimpleValue::Short(-42)), primitive_wrapped(3, [0xD6, 0xFF, 0, 0]));
    assert_eq!(wrapped(SimpleValue::Int(-42)), primitive_wrapped(5, [0xD6, 0xFF, 0xFF, 0xFF]));
    assert_eq!(
        wrapped(SimpleValue::Int64(-42)),
        complex_wrapped(7, &[0xD6, 0xFF, 0xFF, 0xFF, 0xFF, 0xFF, 0xFF, 0xFF])
    );

    assert_eq!(
        wrapped(SimpleValue::Float(42f32.to_bits())),
        primitive_wrapped(8, [0, 0, 0x28, 0x42])
    );
    assert_eq!(
        wrapped(SimpleValue::Double(42f64.to_bits())),
        complex_wrapped(9, &[0, 0, 0, 0, 0, 0, 0x45, 0x40])
    );

    assert_eq!(wrapped(SimpleValue::Byte(1)), primitive_wrapped(0, [1, 0, 0, 0]));
    assert_eq!(wrapped(SimpleValue::Byte(0)), primitive_wrapped(0, [0, 0, 0, 0]));

    assert_eq!(
        wrapped(SimpleValue::String("string".to_owned())),
        complex_wrapped(10, &[6, 0, 0, 0, b's', b't', b'r', b'i', b'n', b'g'])
    );
    assert_eq!(
        wrapped(SimpleValue::Void(b"bytes".to_vec())),
        complex_wrapped(13, &[5, 0, 0, 0, b'b', b'y', b't', b'e', b's'])
    );
}

#[test]
fn mod_test_unit() {
    let mut ser = Serializer::new();
    ser.serialize_unit().expect("can't write unit");
    assert_eq!(to_vec(&ser), unit_top());
    assert_eq!(to_vec(&ser).len(), 68);

    let (ser, root) = begin(0);
    root.end();
    assert_eq!(to_vec(&ser), unit_top());

    let (mut ser, root, field) = begin_value();
    let inner = field.serialize_struct(&mut ser, 0).expect("can't begin struct");
    inner.end();
    root.end_field(&mut ser, field.index);
    assert_eq!(to_vec(&ser), unit_field());
}

#[test]
fn mod_test_newtype() {
    // a value in a wrapper is written as the value itself
    let (mut ser, root, field) = begin_value();
    field.serialize_u32(&mut ser, 42);
    root.end_field(&mut ser, field.index);
    assert_eq!(to_vec(&ser), wrapped(SimpleValue::Dword(42)));

    let (mut ser, root, field) = begin_value();
    field.serialize_i64(&mut ser, -42).expect("can't write number");
    root.end_field(&mut ser, field.index);
    assert_eq!(to_vec(&ser), wrapped(SimpleValue::Int64(-42)));

    let (mut ser, root, field) = begin_value();
    field.serialize_str(&mut ser, "some string").expect("can't write text");
    root.end_field(&mut ser, field.index);
    assert_eq!(to_vec(&ser), wrapped(SimpleValue::String("some string".to_owned())));

    let (mut ser, root, field) = begin_value();
    field.serialize_bytes(&mut ser, b"some vector").expect("can't write bytes");
    root.end_field(&mut ser, field.index);
    assert_eq!(to_vec(&ser), wrapped(SimpleValue::Void(b"some vector".to_vec())));
}

#[test]
fn mod_test_struct() {
    // a struct with two fields at the top of the file
    let (mut ser, root) = begin(2);
    root.serialize_field(&mut ser, "field1", &SimpleValue::String("value".to_owned())).unwrap();
    root.serialize_field(&mut ser, "field2", &SimpleValue::String("another value".to_owned()))
        .unwrap();
    root.end();
    let expected = vec![
        b'G', b'F', b'F', b' ', //
        b'V', b'3', b'.', b'2', //
        56, 0, 0, 0, 1, 0, 0, 0, //
        68, 0, 0, 0, 2, 0, 0, 0, //
        92, 0, 0, 0, 2, 0, 0, 0, //
        124, 0, 0, 0, 26, 0, 0, 0, //
        150, 0, 0, 0, 8, 0, 0, 0, //
        158, 0, 0, 0, 0, 0, 0, 0, //
        0, 0, 0, 0, 0, 0, 0, 0, 2, 0, 0, 0, //
        10, 0, 0, 0, 0, 0, 0, 0, 0, 0, 0, 0, //
        10, 0, 0, 0, 1, 0, 0, 0, 9, 0, 0, 0, //
        b'f', b'i', b'e', b'l', b'd', b'1', 0, 0, 0, 0, 0, 0, 0, 0, 0, 0, //
        b'f', b'i', b'e', b'l', b'd', b'2', 0, 0, 0, 0, 0, 0, 0, 0, 0, 0, //
        5, 0, 0, 0, b'v', b'a', b'l', b'u', b'e', //
        13, 0, 0, 0, b'a', b'n', b'o', b't', b'h', b'e', b'r', b' ', b'v', b'a', b'l', b'u',
        b'e', //
        0, 0, 0, 0, 1, 0, 0, 0,
    ];
    assert_eq!(to_vec(&ser), expected);

    // a struct with a struct in it: the structs hold the offsets of their
    // field lists in bytes
    let (mut ser, root) = begin(3);
    root.serialize_field(&mut ser, "field1", &SimpleValue::String("value 1".to_owned())).unwrap();
    let field = root.begin_field(&mut ser, "field2").unwrap();
    let nested = field.serialize_struct(&mut ser, 2).unwrap();
    nested
        .serialize_field(&mut ser, "field1", &SimpleValue::String("value 2".to_owned()))
        .unwrap();
    nested
        .serialize_field(&mut ser, "field2", &SimpleValue::String("value 3".to_owned()))
        .unwrap();
    nested.end();
    root.end_field(&mut ser, field.index);
    root.serialize_field(&mut ser, "field3", &SimpleValue::String("value 4".to_owned())).unwrap();
    root.end();
    let expected = vec![
        b'G', b'F', b'F', b' ', //
        b'V', b'3', b'.', b'2', //
        56, 0, 0, 0, 2, 0, 0, 0, //
        80, 0, 0, 0, 5, 0, 0, 0, //
        140, 0, 0, 0, 3, 0, 0, 0, //
        188, 0, 0, 0, 44, 0, 0, 0, //
        232, 0, 0, 0, 20, 0, 0, 0, //
        252, 0, 0, 0, 0, 0, 0, 0, //
        0, 0, 0, 0, 0, 0, 0, 0, 3, 0, 0, 0, //
        0, 0, 0, 0, 12, 0, 0, 0, 2, 0, 0, 0, //
        10, 0, 0, 0, 0, 0, 0, 0, 0, 0, 0, 0, //
        14, 0, 0, 0, 1, 0, 0, 0, 1, 0, 0, 0, //
        10, 0, 0, 0, 0, 0, 0, 0, 11, 0, 0, 0, //
        10, 0, 0, 0, 1, 0, 0, 0, 22, 0, 0, 0, //
        10, 0, 0, 0, 2, 0, 0, 0, 33, 0, 0, 0, //
        b'f', b'i', b'e', b'l', b'd', b'1', 0, 0, 0, 0, 0, 0, 0, 0, 0, 0, //
        b'f', b'i', b'e', b'l', b'd', b'2', 0, 0, 0, 0, 0, 0, 0, 0, 0, 0, //
        b'f', b'i', b'e', b'l', b'd', b'3', 0, 0, 0, 0, 0, 0, 0, 0, 0, 0, //
        7, 0, 0, 0, b'v', b'a', b'l', b'u', b'e', b' ', b'1', //
        7, 0, 0, 0, b'v', b'a', b'l', b'u', b'e', b' ', b'2', //
        7, 0, 0, 0, b'v', b'a', b'l', b'u', b'e', b' ', b'3', //
        7, 0, 0, 0, b'v', b'a', b'l', b'u', b'e', b' ', b'4', //
        0, 0, 0, 0, 1, 0, 0, 0, 4, 0, 0, 0, //
        2, 0, 0, 0, 3, 0, 0, 0,
    ];
    assert_eq!(to_vec(&ser), expected);
}

#[test]
fn mod_test_tuple_with_struct_item() {
    let expected = list_wrapped(&[(4, [42, 0, 0, 0]), (8, [0, 0, 0x28, 0x42])]);
    assert_eq!(
        list_of(&[SimpleValue::Dword(42), SimpleValue::Float(42f32.to_bits())]),
        expected
    );
}

#[test]
fn mod_test_list_with_struct_item() {
    let expected = list_wrapped(&[(0, [41, 0, 0, 0]), (0, [42, 0, 0, 0]), (0, [43, 0, 0, 0])]);
    assert_eq!(
        list_of(&[SimpleValue::Byte(41), SimpleValue::Byte(42), SimpleValue::Byte(43)]),
        expected
    );
}

/// Adds a list field with the label `key` and `items` items without fields
/// to the struct `s`.
fn add_empty_items(ser: &mut Serializer, s: &StructSerializer, key: &str, items: usize) {
    let field = s.begin_field(ser, key).unwrap();
    let list = field.serialize_seq(ser, Some(items));
    for _ in 0..items {
        list.serialize_element(ser).unwrap();
        ser.serialize_unit().unwrap();
    }
    list.end();
    s.end_field(ser, field.index);
}

#[test]
fn test_multilist_with_struct_item() {
    let (mut ser, root) = begin(2);
    add_empty_items(&mut ser, &root, "list1", 3);
    add_empty_items(&mut ser, &root, "list2", 2);
    root.end();

    let expected = vec![
        b'G', b'F', b'F', b' ', //
        b'V', b'3', b'.', b'2', //
        56, 0, 0, 0, 6, 0, 0, 0, //
        128, 0, 0, 0, 2, 0, 0, 0, //
        152, 0, 0, 0, 2, 0, 0, 0, //
        184, 0, 0, 0, 0, 0, 0, 0, //
        184, 0, 0, 0, 8, 0, 0, 0, //
        192, 0, 0, 0, 28, 0, 0, 0, //
        0, 0, 0, 0, 0, 0, 0, 0, 2, 0, 0, 0, //
        0, 0, 0, 0, 0, 0, 0, 0, 0, 0, 0, 0, //
        0, 0, 0, 0, 0, 0, 0, 0, 0, 0, 0, 0, //
        0, 0, 0, 0, 0, 0, 0, 0, 0, 0, 0, 0, //
        0, 0, 0, 0, 0, 0, 0, 0, 0, 0, 0, 0, //
        0, 0, 0, 0, 0, 0, 0, 0, 0, 0, 0, 0, //
        15, 0, 0, 0, 0, 0, 0, 0, 0, 0, 0, 0, //
        15, 0, 0, 0, 1, 0, 0, 0, 16, 0, 0, 0, //
        b'l', b'i', b's', b't', b'1', 0, 0, 0, 0, 0, 0, 0, 0, 0, 0, 0, //
        b'l', b'i', b's', b't', b'2', 0, 0, 0, 0, 0, 0, 0, 0, 0, 0, 0, //
        0, 0, 0, 0, 1, 0, 0, 0, //
        3, 0, 0, 0, 1, 0, 0, 0, 2, 0, 0, 0, 3, 0, 0, 0, //
        2, 0, 0, 0, 4, 0, 0, 0, 5, 0, 0, 0,
    ];
    assert_eq!(to_vec(&ser), expected);
}

/// Adds an item with one list field `list` of `items` items without fields
/// to the list `list`.
fn add_item_with_list(ser: &mut Serializer, list: &ListSerializer, items: usize) {
    list.serialize_element(ser).unwrap();
    let item = ser.serialize_struct(1).unwrap();
    add_empty_items(ser, &item, "list", items);
    item.end();
}

#[test]
fn test_nested_list_with_struct_item() {
    let (mut ser, root) = begin(1);
    let field = root.begin_field(&mut ser, "list").unwrap();
    let list = field.serialize_seq(&mut ser, Some(3));
    add_item_with_list(&mut ser, &list, 0);
    add_item_with_list(&mut ser, &list, 2);
    add_item_with_list(&mut ser, &list, 0);
    list.end();
    root.end_field(&mut ser, field.index);
    root.end();

    let expected = vec![
        b'G', b'F', b'F', b' ', //
        b'V', b'3', b'.', b'2', //
        56, 0, 0, 0, 6, 0, 0, 0, //
        128, 0, 0, 0, 4, 0, 0, 0, //
        176, 0, 0, 0, 1, 0, 0, 0, //
        192, 0, 0, 0, 0, 0, 0, 0, //
        192, 0, 0, 0, 0, 0, 0, 0, //
        192, 0, 0, 0, 36, 0, 0, 0, //
        0, 0, 0, 0, 0, 0, 0, 0, 1, 0, 0, 0, //
        0, 0, 0, 0, 1, 0, 0, 0, 1, 0, 0, 0, //
        0, 0, 0, 0, 2, 0, 0, 0, 1, 0, 0, 0, //
        0, 0, 0, 0, 0, 0, 0, 0, 0, 0, 0, 0, //
        0, 0, 0, 0, 0, 0, 0, 0, 0, 0, 0, 0, //
        0, 0, 0, 0, 3, 0, 0, 0, 1, 0, 0, 0, //
        15, 0, 0, 0, 0, 0, 0, 0, 0, 0, 0, 0, //
        15, 0, 0, 0, 0, 0, 0, 0, 16, 0, 0, 0, //
        15, 0, 0, 0, 0, 0, 0, 0, 20, 0, 0, 0, //
        15, 0, 0, 0, 0, 0, 0, 0, 32, 0, 0, 0, //
        b'l', b'i', b's', b't', 0, 0, 0, 0, 0, 0, 0, 0, 0, 0, 0, 0, //
        3, 0, 0, 0, 1, 0, 0, 0, 2, 0, 0, 0, 5, 0, 0, 0, //
        0, 0, 0, 0, //
        2, 0, 0, 0, 3, 0, 0, 0, 4, 0, 0, 0, //
        0, 0, 0, 0,
    ];
    assert_eq!(to_vec(&ser), expected);
}

#[test]
fn labels_are_held_once() {
    let mut ser = Serializer::new();
    assert_eq!(ser.add_label("first").unwrap(), LabelIndex(0));
    assert_eq!(ser.add_label("second").unwrap(), LabelIndex(1));
    assert_eq!(ser.add_label("first").unwrap(), LabelIndex(0));
    assert_eq!(ser.add_label("third").unwrap(), LabelIndex(2));
    assert_eq!(ser.add_label("second").unwrap(), LabelIndex(1));
}

#[test]
fn too_long_label_is_refused() {
    let mut ser = Serializer::new();
    assert_eq!(ser.add_label("more_then_16_char"), Err(Error::TooLongLabel(17)));
    assert_eq!(ser.add_label("exactly_16_chars").unwrap(), LabelIndex(0));
    let root = ser.serialize_struct(1).unwrap();
    assert_eq!(
        root.serialize_field(&mut ser, "a_label_that_is_too_long", &SimpleValue::Byte(1)),
        Err(Error::TooLongLabel(24))
    );
}

#[test]
fn label_of_16_bytes_has_no_zero_behind_it() {
    let (mut ser, root) = begin(1);
    root.serialize_field(&mut ser, "exactly_16_chars", &SimpleValue::Byte(7)).unwrap();
    let file = to_vec(&ser);
    assert_eq!(&file[80..96], b"exactly_16_chars");
    assert_eq!(file.len(), 96);
}

#[test]
fn resref_of_255_bytes_is_written() {
    let name = vec![b'a'; 255];
    let file = wrapped(SimpleValue::ResRef(ResRef(name.clone())));
    let mut payload = vec![255u8];
    payload.extend_from_slice(&name);
    assert_eq!(&file[96..], &payload[..]);
    assert_eq!(file[68], 11);
    // the size of the field data, which is 256, in the header
    assert_eq!(&file[32..40], &[96, 0, 0, 0, 0, 1, 0, 0]);
}

#[test]
fn resref_of_256_bytes_is_refused() {
    let (mut ser, root) = begin(1);
    let r = root.serialize_field(&mut ser, "value", &SimpleValue::ResRef(ResRef(vec![b'a'; 256])));
    assert!(matches!(r, Err(Error::Serialize(_))));
}

#[test]
fn loc_string_is_written_with_all_its_texts() {
    let value = LocString {
        str_ref: StrRef(0xFFFF_FFFF),
        strings: vec![
            SubString { key: StringKey(0), string: "hello".to_owned() },
            SubString { key: StringKey(3), string: "salut".to_owned() },
        ],
    };
    let file = wrapped(SimpleValue::LocString(value));
    let payload = vec![
        34, 0, 0, 0, // the bytes that follow
        0xFF, 0xFF, 0xFF, 0xFF, // no string reference
        2, 0, 0, 0, // two texts
        0, 0, 0, 0, 5, 0, 0, 0, b'h', b'e', b'l', b'l', b'o', //
        3, 0, 0, 0, 5, 0, 0, 0, b's', b'a', b'l', b'u', b't',
    ];
    assert_eq!(file, complex_wrapped(12, &payload));
}

#[test]
fn empty_list_takes_one_number() {
    let (mut ser, root) = begin(1);
    add_empty_items(&mut ser, &root, "list", 0);
    let file = to_vec(&ser);
    // the section of the struct lists holds the length 0 and nothing else
    assert_eq!(&file[48..56], &[96, 0, 0, 0, 4, 0, 0, 0]);
    assert_eq!(&file[96..], &[0, 0, 0, 0]);
}

#[test]
fn struct_with_one_field_holds_the_number_of_the_field() {
    // the second struct has one field, which is the third field of the file
    let (mut ser, root) = begin(3);
    root.serialize_field(&mut ser, "a", &SimpleValue::Byte(1)).unwrap();
    root.serialize_field(&mut ser, "b", &SimpleValue::Byte(2)).unwrap();
    let field = root.begin_field(&mut ser, "c").unwrap();
    let inner = field.serialize_struct(&mut ser, 1).unwrap();
    inner.serialize_field(&mut ser, "d", &SimpleValue::Byte(3)).unwrap();
    root.end_field(&mut ser, field.index);
    let file = to_vec(&ser);
    // struct 0: several fields, the offset of its field list, which is 0
    assert_eq!(&file[56..68], &[0, 0, 0, 0, 0, 0, 0, 0, 3, 0, 0, 0]);
    // struct 1: one field, the number of the field, which is 3
    assert_eq!(&file[68..80], &[0, 0, 0, 0, 3, 0, 0, 0, 1, 0, 0, 0]);
}

#[test]
fn header_of_the_file_in_the_making() {
    let (mut ser, root) = begin(2);
    root.serialize_field(&mut ser, "field1", &SimpleValue::String("value".to_owned())).unwrap();
    root.serialize_field(&mut ser, "field2", &SimpleValue::String("another value".to_owned()))
        .unwrap();
    let header = ser.make_header(Signature::IFO, Version::v3_2()).unwrap();
    assert_eq!(header.signature, Signature::IFO);
    assert_eq!((header.structs.offset, header.structs.count), (56, 1));
    assert_eq!((header.fields.offset, header.fields.count), (68, 2));
    assert_eq!((header.labels.offset, header.labels.count), (92, 2));
    assert_eq!((header.field_data.offset, header.field_data.count), (124, 26));
    assert_eq!((header.field_indices.offset, header.field_indices.count), (150, 8));
    assert_eq!((header.list_indices.offset, header.list_indices.count), (158, 0));
}
