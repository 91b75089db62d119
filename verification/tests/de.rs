use std::collections::HashMap;

use serde_gff::de::{
    expect_bool, expect_char, expect_end, expect_f32, expect_i16, expect_i32, expect_i8,
    expect_list, expect_struct, expect_u16, expect_u32, expect_u8, visit, Any, Deserializer, Visit,
};
use serde_gff::error::{Error, IoError};
use serde_gff::index::{LabelIndex, ResRefIndex};
use serde_gff::parser::{Tag, Token};
use serde_gff::ser::{Serializer, StructSerializer};
use serde_gff::sig::Signature;
use serde_gff::source::Source;
use serde_gff::string::{LocString, StrRef, StringKey, SubString};
use serde_gff::text::DecoderTrap;
use serde_gff::value::{SimpleValue, SimpleValueRef};
use serde_gff::ver::Version;
use serde_gff::ResRef;

fn to_vec(ser: &Serializer) -> Vec<u8> {
    let mut out = Vec::new();
    ser.write(&mut out, Signature::from(*b"GFF "), Version::v3_2()).unwrap();
    out
}

/// A deserializer of the file of a struct with the fields given.
fn de(fields: &[(&str, SimpleValue)]) -> Deserializer {
    let mut ser = Serializer::new();
    let root = ser.serialize_struct(fields.len()).unwrap();
    for (key, value) in fields {
        root.serialize_field(&mut ser, key, value).unwrap();
    }
    Deserializer::new(Source::new(to_vec(&ser))).unwrap()
}

/// A deserializer that stands before the value of the one field of a file.
fn before(value: SimpleValue) -> Deserializer {
    let mut de = de(&[("value", value)]);
    assert_eq!(de.deserialize_map(), Ok(Token::RootEnd));
    assert_eq!(de.next_key(), Ok(true));
    assert_eq!(de.deserialize_label().unwrap().as_str(), Ok("value"));
    de
}

#[test]
fn token_is_looked_at_and_then_taken() {
    let mut de = de(&[("a", SimpleValue::Byte(1))]);
    let root = Token::RootBegin { tag: Tag(0), count: 1 };
    assert_eq!(de.peek_token(), Ok(root));
    assert_eq!(de.peek_token(), Ok(root));
    assert_eq!(de.next_token(), Ok(root));
    assert_eq!(de.next_token(), Ok(Token::Label(LabelIndex(0))));
    assert_eq!(de.peek_token(), Ok(Token::Value(SimpleValueRef::Byte(1))));
    assert_eq!(de.next_token(), Ok(Token::Value(SimpleValueRef::Byte(1))));
    assert_eq!(de.next_token(), Ok(Token::RootEnd));
    assert_eq!(de.peek_token(), Err(Error::ParsingFinished));
    assert_eq!(de.next_token(), Err(Error::ParsingFinished));
}

#[test]
fn token_is_taken_for_what_is_expected() {
    let byte = Token::Value(SimpleValueRef::Byte(200));
    let char_ = Token::Value(SimpleValueRef::Char(-56));
    assert_eq!(expect_u8(byte), Ok(200));
    assert_eq!(expect_u8(char_), Err(Error::Unexpected("Byte", char_)));
    assert_eq!(expect_i8(char_), Ok(-56));
    assert_eq!(expect_i8(byte), Err(Error::Unexpected("Char", byte)));
    assert_eq!(expect_u16(Token::Value(SimpleValueRef::Word(7))), Ok(7));
    assert_eq!(expect_u16(byte), Err(Error::Unexpected("Word", byte)));
    assert_eq!(expect_i16(Token::Value(SimpleValueRef::Short(-7))), Ok(-7));
    assert_eq!(expect_i16(byte), Err(Error::Unexpected("Short", byte)));
    assert_eq!(expect_u32(Token::Value(SimpleValueRef::Dword(7))), Ok(7));
    assert_eq!(expect_u32(byte), Err(Error::Unexpected("Dword", byte)));
    assert_eq!(expect_i32(Token::Value(SimpleValueRef::Int(-7))), Ok(-7));
    assert_eq!(expect_i32(byte), Err(Error::Unexpected("Int", byte)));
    assert_eq!(
        expect_f32(Token::Value(SimpleValueRef::Float(1.5f32.to_bits()))).map(f32::from_bits),
        Ok(1.5)
    );
    assert_eq!(expect_f32(byte), Err(Error::Unexpected("Float", byte)));
    assert_eq!(expect_bool(byte), Ok(true));
    assert_eq!(expect_bool(Token::Value(SimpleValueRef::Byte(0))), Ok(false));
    assert_eq!(expect_bool(char_), Err(Error::Unexpected("Byte", char_)));
    assert_eq!(expect_char(Token::Value(SimpleValueRef::Byte(b'a'))), Ok('a'));
    assert_eq!(expect_char(byte), Ok('\u{c8}'));
    assert_eq!(expect_char(char_), Ok('\u{c8}'));
    assert_eq!(expect_char(Token::ListEnd), Err(Error::Unexpected("Byte, Char", Token::ListEnd)));
}

#[test]
fn begin_tells_its_end() {
    assert_eq!(expect_struct(Token::RootBegin { tag: Tag(1), count: 2 }), Ok(Token::RootEnd));
    assert_eq!(
        expect_struct(Token::ItemBegin { tag: Tag(1), count: 2, index: 3 }),
        Ok(Token::ItemEnd)
    );
    assert_eq!(expect_struct(Token::StructBegin { tag: Tag(1), count: 2 }), Ok(Token::StructEnd));
    assert_eq!(
        expect_struct(Token::ListBegin(1)),
        Err(Error::Unexpected("RootBegin, ItemBegin, StructBegin", Token::ListBegin(1)))
    );
    assert_eq!(expect_list(Token::ListBegin(1)), Ok(Token::ListEnd));
    assert_eq!(
        expect_list(Token::RootEnd),
        Err(Error::Unexpected("ListBegin", Token::RootEnd))
    );
    assert_eq!(expect_end(Token::RootEnd, Token::RootEnd), Ok(()));
    assert_eq!(expect_end(Token::ListEnd, Token::ListEnd), Ok(()));
    assert_eq!(
        expect_end(Token::RootEnd, Token::ItemEnd),
        Err(Error::Unexpected("RootEnd", Token::ItemEnd))
    );
    assert_eq!(
        expect_end(Token::ItemEnd, Token::StructEnd),
        Err(Error::Unexpected("ItemEnd", Token::StructEnd))
    );
    assert_eq!(
        expect_end(Token::StructEnd, Token::ListEnd),
        Err(Error::Unexpected("StructEnd", Token::ListEnd))
    );
    assert_eq!(
        expect_end(Token::ListEnd, Token::Label(LabelIndex(0))),
        Err(Error::Unexpected("ListEnd", Token::Label(LabelIndex(0))))
    );
}

#[test]
fn numbers_are_taken() {
    assert_eq!(before(SimpleValue::Byte(7)).deserialize_u8(), Ok(7));
    assert_eq!(before(SimpleValue::Char(-7)).deserialize_i8(), Ok(-7));
    assert_eq!(before(SimpleValue::Word(7)).deserialize_u16(), Ok(7));
    assert_eq!(before(SimpleValue::Short(-7)).deserialize_i16(), Ok(-7));
    assert_eq!(before(SimpleValue::Dword(7)).deserialize_u32(), Ok(7));
    assert_eq!(before(SimpleValue::Int(-7)).deserialize_i32(), Ok(-7));
    assert_eq!(before(SimpleValue::Dword64(1 << 40)).deserialize_u64(), Ok(1 << 40));
    assert_eq!(before(SimpleValue::Int64(-(1 << 40))).deserialize_i64(), Ok(-(1 << 40)));
    assert_eq!(
        before(SimpleValue::Float(0.5f32.to_bits())).deserialize_f32().map(f32::from_bits),
        Ok(0.5)
    );
    assert_eq!(
        before(SimpleValue::Double(0.25f64.to_bits())).deserialize_f64().map(f64::from_bits),
        Ok(0.25)
    );
    assert_eq!(before(SimpleValue::Byte(1)).deserialize_bool(), Ok(true));
    assert_eq!(before(SimpleValue::Byte(b'x')).deserialize_char(), Ok('x'));
    let token = Token::Value(SimpleValueRef::Byte(7));
    assert_eq!(
        before(SimpleValue::Byte(7)).deserialize_u64(),
        Err(Error::Unexpected("Dword64", token))
    );
    assert_eq!(
        before(SimpleValue::Byte(7)).deserialize_i64(),
        Err(Error::Unexpected("Int64", token))
    );
    assert_eq!(
        before(SimpleValue::Byte(7)).deserialize_f64(),
        Err(Error::Unexpected("Double", token))
    );
    assert_eq!(
        before(SimpleValue::Byte(7)).deserialize_u16(),
        Err(Error::Unexpected("Word", token))
    );
}

#[test]
fn texts_and_bytes_are_taken() {
    assert_eq!(
        before(SimpleValue::String("text".to_owned())).deserialize_string(),
        Ok("text".to_owned())
    );
    assert_eq!(
        before(SimpleValue::ResRef(ResRef::from("name"))).deserialize_string(),
        Ok("name".to_owned())
    );
    assert!(matches!(
        before(SimpleValue::ResRef(ResRef(vec![0xFF]))).deserialize_string(),
        Err(Error::Encoding(_))
    ));
    assert_eq!(
        before(SimpleValue::Byte(1)).deserialize_string(),
        Err(Error::Unexpected("String, ResRef", Token::Value(SimpleValueRef::Byte(1))))
    );
    assert_eq!(
        before(SimpleValue::Void(vec![1, 2, 3])).deserialize_byte_buf(),
        Ok(vec![1, 2, 3])
    );
    assert_eq!(
        before(SimpleValue::ResRef(ResRef(vec![0xFF]))).deserialize_byte_buf(),
        Ok(vec![0xFF])
    );
    assert_eq!(
        before(SimpleValue::Byte(1)).deserialize_byte_buf(),
        Err(Error::Unexpected("Void, ResRef", Token::Value(SimpleValueRef::Byte(1))))
    );
}

#[test]
fn variant_is_named_by_a_number_or_a_text() {
    assert_eq!(before(SimpleValue::Byte(7)).deserialize_identifier(), Ok("7".to_owned()));
    assert_eq!(before(SimpleValue::Char(-7)).deserialize_identifier(), Ok("-7".to_owned()));
    assert_eq!(before(SimpleValue::Word(7)).deserialize_identifier(), Ok("7".to_owned()));
    assert_eq!(before(SimpleValue::Short(-7)).deserialize_identifier(), Ok("-7".to_owned()));
    assert_eq!(before(SimpleValue::Dword(7)).deserialize_identifier(), Ok("7".to_owned()));
    assert_eq!(before(SimpleValue::Int(-7)).deserialize_identifier(), Ok("-7".to_owned()));
    assert_eq!(
        before(SimpleValue::Dword64(1 << 40)).deserialize_identifier(),
        Ok("1099511627776".to_owned())
    );
    assert_eq!(before(SimpleValue::Int64(-7)).deserialize_identifier(), Ok("-7".to_owned()));
    assert_eq!(
        before(SimpleValue::String("name".to_owned())).deserialize_identifier(),
        Ok("name".to_owned())
    );
    assert_eq!(
        before(SimpleValue::Float(0)).deserialize_identifier(),
        Err(Error::Unexpected(
            "Byte, Char, Word, Short, Dword, Int, Int64, String",
            Token::Value(SimpleValueRef::Float(0))
        ))
    );
}

#[test]
fn value_is_handed_on_in_its_form() {
    assert_eq!(visit(SimpleValue::Byte(1)), Visit::U8(1));
    assert_eq!(visit(SimpleValue::Char(-1)), Visit::I8(-1));
    assert_eq!(visit(SimpleValue::Word(1)), Visit::U16(1));
    assert_eq!(visit(SimpleValue::Short(-1)), Visit::I16(-1));
    assert_eq!(visit(SimpleValue::Dword(1)), Visit::U32(1));
    assert_eq!(visit(SimpleValue::Int(-1)), Visit::I32(-1));
    assert_eq!(visit(SimpleValue::Dword64(1)), Visit::U64(1));
    assert_eq!(visit(SimpleValue::Int64(-1)), Visit::I64(-1));
    assert_eq!(visit(SimpleValue::Float(1)), Visit::F32(1));
    assert_eq!(visit(SimpleValue::Double(1)), Visit::F64(1));
    assert_eq!(visit(SimpleValue::String("s".to_owned())), Visit::String("s".to_owned()));
    assert_eq!(visit(SimpleValue::Void(vec![1])), Visit::ByteBuf(vec![1]));
    assert_eq!(visit(SimpleValue::ResRef(ResRef::from("r"))), Visit::String("r".to_owned()));
    assert_eq!(visit(SimpleValue::ResRef(ResRef(vec![0xFF]))), Visit::ByteBuf(vec![0xFF]));
    let loc = LocString {
        str_ref: StrRef(5),
        strings: vec![SubString { key: StringKey(0), string: "x".to_owned() }],
    };
    assert_eq!(visit(SimpleValue::LocString(loc.clone())), Visit::U32(5));
    let mut texts = HashMap::new();
    texts.insert(0, "x".to_owned());
    assert_eq!(
        visit(SimpleValue::LocString(LocString { str_ref: StrRef(0xFFFF_FFFF), ..loc })),
        Visit::Texts(texts)
    );
}

/// Adds a list field with the label `key` and `items` items without fields.
fn add_empty_items(ser: &mut Serializer, s: &StructSerializer, key: &str, items: usize) {
    let field = s.begin_field(ser, key).unwrap();
    let list = field.serialize_seq(ser, Some(items));
    for _ in 0..items {
        list.serialize_element(ser).unwrap();
        ser.serialize_unit().unwrap();
    }
    s.end_field(ser, field.index);
}

/// A file with a value, a struct and a list.
fn nested() -> Deserializer {
    let mut ser = Serializer::new();
    let root = ser.serialize_struct(3).unwrap();
    root.serialize_field(&mut ser, "res", &SimpleValue::ResRef(ResRef::from("name"))).unwrap();
    let field = root.begin_field(&mut ser, "struc").unwrap();
    let inner = field.serialize_struct(&mut ser, 1).unwrap();
    inner.serialize_field(&mut ser, "a", &SimpleValue::Byte(1)).unwrap();
    root.end_field(&mut ser, field.index);
    add_empty_items(&mut ser, &root, "list", 2);
    Deserializer::with_encoding(Source::new(to_vec(&ser)), "utf-8", DecoderTrap::Strict).unwrap()
}

#[test]
fn file_is_read_by_its_shape() {
    let mut de = nested();
    let end = de.deserialize_map().unwrap();
    assert_eq!(end, Token::RootEnd);

    assert_eq!(de.next_key(), Ok(true));
    assert_eq!(de.next_key(), Ok(true));
    assert_eq!(de.deserialize_label().unwrap().as_str(), Ok("res"));
    assert_eq!(de.deserialize_string(), Ok("name".to_owned()));

    assert_eq!(de.next_key(), Ok(true));
    assert_eq!(de.deserialize_label().unwrap().as_str(), Ok("struc"));
    assert_eq!(
        de.next_element(),
        Err(Error::Unexpected("ItemBegin", Token::StructBegin { tag: Tag(0), count: 1 }))
    );
    let inner = de.deserialize_map().unwrap();
    assert_eq!(inner, Token::StructEnd);
    assert_eq!(de.next_key(), Ok(true));
    assert_eq!(de.deserialize_label().unwrap().as_str(), Ok("a"));
    assert_eq!(
        de.next_key(),
        Err(Error::Unexpected("Label", Token::Value(SimpleValueRef::Byte(1))))
    );
    assert_eq!(de.deserialize_bool(), Ok(true));
    assert_eq!(de.next_key(), Ok(false));
    assert_eq!(de.end(inner), Ok(()));

    assert_eq!(de.next_key(), Ok(true));
    assert_eq!(de.deserialize_label().unwrap().as_str(), Ok("list"));
    let list = de.deserialize_seq().unwrap();
    assert_eq!(list, Token::ListEnd);
    assert_eq!(de.next_element(), Ok(true));
    assert_eq!(de.deserialize_unit(), Ok(()));
    assert_eq!(de.next_element(), Ok(true));
    let item = de.deserialize_map().unwrap();
    assert_eq!(item, Token::ItemEnd);
    assert_eq!(de.next_key(), Ok(false));
    assert_eq!(de.end(Token::StructEnd), Err(Error::Unexpected("StructEnd", Token::ItemEnd)));
    assert_eq!(de.next_element(), Ok(false));
    assert_eq!(de.end(list), Ok(()));

    assert_eq!(de.next_key(), Ok(false));
    assert_eq!(de.end(end), Ok(()));
    assert_eq!(de.next_token(), Err(Error::ParsingFinished));
}

#[test]
fn what_is_of_no_interest_is_passed_over() {
    let mut de = nested();
    de.deserialize_map().unwrap();
    // the label of the first field and its value
    assert_eq!(de.deserialize_ignored_any(), Ok(()));
    assert_eq!(de.deserialize_ignored_any(), Ok(()));
    assert_eq!(de.deserialize_label().unwrap().as_str(), Ok("struc"));
    // the whole struct
    assert_eq!(de.deserialize_ignored_any(), Ok(()));
    assert_eq!(de.deserialize_label().unwrap().as_str(), Ok("list"));
    // the whole list
    assert_eq!(de.deserialize_ignored_any(), Ok(()));
    assert_eq!(de.next_key(), Ok(false));
    assert_eq!(de.deserialize_unit(), Err(Error::Unexpected(
        "RootBegin, ItemBegin, StructBegin",
        Token::RootEnd
    )));

    // the whole file is a value that is nothing
    let mut de = nested();
    assert_eq!(de.deserialize_unit(), Ok(()));
    assert_eq!(de.next_token(), Err(Error::ParsingFinished));
}

#[test]
fn anything_is_taken_as_what_it_is() {
    let mut de = nested();
    assert_eq!(de.deserialize_any(), Ok(Any::Struct(Token::RootEnd)));
    assert_eq!(de.deserialize_any().map(|a| matches!(a, Any::Label(l) if l.as_str() == Ok("res"))), Ok(true));
    assert_eq!(de.deserialize_any(), Ok(Any::Value(Visit::String("name".to_owned()))));
    de.deserialize_label().unwrap();
    assert_eq!(de.deserialize_any(), Ok(Any::Struct(Token::StructEnd)));
    de.deserialize_label().unwrap();
    assert_eq!(de.deserialize_any(), Ok(Any::Value(Visit::U8(1))));
    assert_eq!(de.deserialize_any(), Err(Error::Unexpected("a value", Token::StructEnd)));
    de.deserialize_label().unwrap();
    assert_eq!(de.deserialize_any(), Ok(Any::List));
    assert_eq!(de.deserialize_any(), Ok(Any::Struct(Token::ItemEnd)));
    assert_eq!(de.deserialize_value(SimpleValueRef::Int(-5)), Ok(Visit::I32(-5)));
    assert_eq!(
        de.deserialize_value(SimpleValueRef::ResRef(ResRefIndex(0))),
        Ok(Visit::String("name".to_owned()))
    );
    assert_eq!(
        de.deserialize_value(SimpleValueRef::ResRef(ResRefIndex(100_000))),
        Err(Error::Io(IoError::UnexpectedEof))
    );
}

#[test]
fn short_file_has_no_deserializer() {
    assert_eq!(
        Deserializer::new(Source::new(vec![0; 55])).err(),
        Some(Error::Io(IoError::UnexpectedEof))
    );
}

/// The file that holds one struct without fields and nothing else.
fn empty_file() -> Deserializer {
    let mut ser = Serializer::new();
    ser.serialize_unit().unwrap();
    let file = to_vec(&ser);
    assert_eq!(file.len(), 68);
    Deserializer::new(Source::new(file)).expect("can't read GFF header")
}

/// Reads the file without fields as a value that is nothing.
fn read_unit() {
    let mut de = empty_file();
    assert_eq!(de.deserialize_unit(), Ok(()));
    assert_eq!(de.next_token(), Err(Error::ParsingFinished));
}

/// Reads the file without fields as a struct without fields.
fn read_empty_struct() {
    let mut de = empty_file();
    let end = de.deserialize_map().expect("can't begin struct");
    assert_eq!(de.next_key(), Ok(false));
    assert_eq!(de.end(end), Ok(()));
    assert_eq!(de.next_token(), Err(Error::ParsingFinished));
}

#[test]
fn de_to_unit() {
    read_unit();
}

#[test]
fn de_to_unit_struct() {
    read_unit();
}

#[test]
fn de_to_empty_struct() {
    read_empty_struct();
}

#[test]
fn mod_to_unit() {
    read_unit();
}

#[test]
fn mod_to_unit_struct() {
    read_unit();
}

#[test]
fn mod_to_empty_struct() {
    read_empty_struct();
}
