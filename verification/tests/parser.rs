use serde_gff::error::{Error, IoError};
use serde_gff::index::{
    BinaryIndex, F64Index, I64Index, LabelIndex, LocStringIndex, ResRefIndex, StringIndex,
    U64Index,
};
use serde_gff::parser::{Parser, Tag, Token};
use serde_gff::ser::Serializer;
use serde_gff::sig::Signature;
use serde_gff::source::Source;
use serde_gff::string::{LocString, StrRef, StringKey, SubString};
use serde_gff::text::DecoderTrap;
use serde_gff::value::{SimpleValue, SimpleValueRef};
use serde_gff::ver::Version;
use serde_gff::{Label, ResRef};

/// The file without fields.
fn empty_file() -> Vec<u8> {
    let mut v = b"GFF V3.2".to_vec();
    v.extend_from_slice(&[
        56, 0, 0, 0, 1, 0, 0, 0, //
        68, 0, 0, 0, 0, 0, 0, 0, //
        68, 0, 0, 0, 0, 0, 0, 0, //
        68, 0, 0, 0, 0, 0, 0, 0, //
        68, 0, 0, 0, 0, 0, 0, 0, //
        68, 0, 0, 0, 0, 0, 0, 0, //
        0, 0, 0, 0, 0, 0, 0, 0, 0, 0, 0, 0,
    ]);
    v
}

/// The file whose one field `value` is the number 42.
fn one_field_file() -> Vec<u8> {
    let mut v = b"GFF V3.2".to_vec();
    v.extend_from_slice(&[
        56, 0, 0, 0, 1, 0, 0, 0, //
        68, 0, 0, 0, 1, 0, 0, 0, //
        80, 0, 0, 0, 1, 0, 0, 0, //
        96, 0, 0, 0, 0, 0, 0, 0, //
        96, 0, 0, 0, 0, 0, 0, 0, //
        96, 0, 0, 0, 0, 0, 0, 0, //
        0, 0, 0, 0, 0, 0, 0, 0, 1, 0, 0, 0, //
        4, 0, 0, 0, 0, 0, 0, 0, 42, 0, 0, 0, //
        b'v', b'a', b'l', b'u', b'e', 0, 0, 0, 0, 0, 0, 0, 0, 0, 0, 0,
    ]);
    v
}

fn parser(file: Vec<u8>) -> Parser {
    Parser::new(Source::new(file)).expect("reading GFF header failed")
}

/// All tokens of the file, to its end.
fn tokens(file: Vec<u8>) -> Vec<Token> {
    let mut parser = parser(file);
    let mut tokens = Vec::new();
    while let Some(token) = parser.next() {
        tokens.push(token.expect("can't read token"));
        assert!(tokens.len() < 10_000);
    }
    tokens
}

fn to_vec(ser: &Serializer) -> Vec<u8> {
    let mut out = Vec::new();
    ser.write(&mut out, Signature::from(*b"GFF "), Version::v3_2()).unwrap();
    out
}

#[test]
fn empty_file_has_two_tokens() {
    assert_eq!(
        tokens(empty_file()),
        vec![Token::RootBegin { tag: Tag(0), count: 0 }, Token::RootEnd]
    );
}

#[test]
fn end_of_the_stream_is_told_again_and_again() {
    let mut parser = parser(empty_file());
    assert_eq!(parser.next_token(), Ok(Token::RootBegin { tag: Tag(0), count: 0 }));
    assert!(!parser.is_finished());
    assert_eq!(parser.next_token(), Ok(Token::RootEnd));
    assert!(parser.is_finished());
    assert_eq!(parser.next_token(), Err(Error::ParsingFinished));
    assert_eq!(parser.next_token(), Err(Error::ParsingFinished));
    assert_eq!(parser.next(), None);
    assert_eq!(parser.next(), None);
}

#[test]
fn one_field_file_has_four_tokens() {
    assert_eq!(
        tokens(one_field_file()),
        vec![
            Token::RootBegin { tag: Tag(0), count: 1 },
            Token::Label(LabelIndex(0)),
            Token::Value(SimpleValueRef::Dword(42)),
            Token::RootEnd,
        ]
    );
}

#[test]
fn label_is_read_where_the_parser_stands() {
    let mut parser = parser(one_field_file());
    assert_eq!(parser.next_token(), Ok(Token::RootBegin { tag: Tag(0), count: 1 }));
    assert_eq!(parser.next_token(), Ok(Token::Label(LabelIndex(0))));
    let label = parser.read_label(LabelIndex(0)).unwrap();
    assert_eq!(label.as_str(), Ok("value"));
    assert_eq!(label, "value".parse().unwrap());
    assert_eq!(parser.next_token(), Ok(Token::Value(SimpleValueRef::Dword(42))));
    assert_eq!(parser.next_token(), Ok(Token::RootEnd));
    assert_eq!(parser.read_label(LabelIndex(1)), Err(Error::Io(IoError::UnexpectedEof)));
}

#[test]
fn label_of_16_bytes_is_read_in_full() {
    let mut ser = Serializer::new();
    let root = ser.serialize_struct(1).unwrap();
    root.serialize_field(&mut ser, "exactly_16_chars", &SimpleValue::Byte(1)).unwrap();
    let mut parser = parser(to_vec(&ser));
    let label = parser.read_label(LabelIndex(0)).unwrap();
    assert_eq!(label.len(), 16);
    assert_eq!(label.as_str(), Ok("exactly_16_chars"));
    assert_eq!(label, Label(*b"exactly_16_chars"));
}

/// Adds a list field with the label `key` and `items` items without fields.
fn add_empty_items(
    ser: &mut Serializer,
    s: &serde_gff::ser::StructSerializer,
    key: &str,
    items: usize,
) {
    let field = s.begin_field(ser, key).unwrap();
    let list = field.serialize_seq(ser, Some(items));
    for _ in 0..items {
        list.serialize_element(ser).unwrap();
        ser.serialize_unit().unwrap();
    }
    s.end_field(ser, field.index);
}

#[test]
fn list_of_three_structs_without_fields() {
    let mut ser = Serializer::new();
    let root = ser.serialize_struct(1).unwrap();
    add_empty_items(&mut ser, &root, "list", 3);
    let file = to_vec(&ser);
    // four structs, and one list of three items
    assert_eq!(&file[8..16], &[56, 0, 0, 0, 4, 0, 0, 0]);
    assert_eq!(&file[file.len() - 16..], &[3, 0, 0, 0, 1, 0, 0, 0, 2, 0, 0, 0, 3, 0, 0, 0]);

    let mut parser = parser(file.clone());
    assert_eq!(parser.next_token(), Ok(Token::RootBegin { tag: Tag(0), count: 1 }));
    assert_eq!(parser.next_token(), Ok(Token::Label(LabelIndex(0))));
    assert_eq!(parser.read_label(LabelIndex(0)).unwrap().as_str(), Ok("list"));
    assert_eq!(
        tokens(file),
        vec![
            Token::RootBegin { tag: Tag(0), count: 1 },
            Token::Label(LabelIndex(0)),
            Token::ListBegin(3),
            Token::ItemBegin { tag: Tag(0), count: 0, index: 0 },
            Token::ItemEnd,
            Token::ItemBegin { tag: Tag(0), count: 0, index: 1 },
            Token::ItemEnd,
            Token::ItemBegin { tag: Tag(0), count: 0, index: 2 },
            Token::ItemEnd,
            Token::ListEnd,
            Token::RootEnd,
        ]
    );
}

#[test]
fn empty_list_begins_and_ends() {
    let mut ser = Serializer::new();
    let root = ser.serialize_struct(1).unwrap();
    add_empty_items(&mut ser, &root, "list", 0);
    assert_eq!(
        tokens(to_vec(&ser)),
        vec![
            Token::RootBegin { tag: Tag(0), count: 1 },
            Token::Label(LabelIndex(0)),
            Token::ListBegin(0),
            Token::ListEnd,
            Token::RootEnd,
        ]
    );
}

/// A file with a struct in a struct and a list behind it.
fn nested_file() -> Vec<u8> {
    let mut ser = Serializer::new();
    let root = ser.serialize_struct(3).unwrap();
    root.serialize_field(&mut ser, "int", &SimpleValue::Int(8)).unwrap();
    let field = root.begin_field(&mut ser, "struc").unwrap();
    let inner = field.serialize_struct(&mut ser, 2).unwrap();
    inner.serialize_field(&mut ser, "a", &SimpleValue::Byte(1)).unwrap();
    inner.serialize_field(&mut ser, "b", &SimpleValue::Double(0f64.to_bits())).unwrap();
    root.end_field(&mut ser, field.index);
    let field = root.begin_field(&mut ser, "list").unwrap();
    let list = field.serialize_seq(&mut ser, Some(2));
    for i in 0..2 {
        list.serialize_element(&mut ser).unwrap();
        let item = ser.serialize_struct(1).unwrap();
        item.serialize_field(&mut ser, "double", &SimpleValue::Word(i)).unwrap();
    }
    root.end_field(&mut ser, field.index);
    to_vec(&ser)
}

#[test]
fn tokens_come_in_the_order_of_the_tree() {
    assert_eq!(
        tokens(nested_file()),
        vec![
            Token::RootBegin { tag: Tag(0), count: 3 },
            Token::Label(LabelIndex(0)),
            Token::Value(SimpleValueRef::Int(8)),
            Token::Label(LabelIndex(1)),
            Token::StructBegin { tag: Tag(0), count: 2 },
            Token::Label(LabelIndex(2)),
            Token::Value(SimpleValueRef::Byte(1)),
            Token::Label(LabelIndex(3)),
            Token::Value(SimpleValueRef::Double(F64Index(0))),
            Token::StructEnd,
            Token::Label(LabelIndex(4)),
            Token::ListBegin(2),
            Token::ItemBegin { tag: Tag(0), count: 1, index: 0 },
            Token::Label(LabelIndex(5)),
            Token::Value(SimpleValueRef::Word(0)),
            Token::ItemEnd,
            Token::ItemBegin { tag: Tag(0), count: 1, index: 1 },
            Token::Label(LabelIndex(5)),
            Token::Value(SimpleValueRef::Word(1)),
            Token::ItemEnd,
            Token::ListEnd,
            Token::RootEnd,
        ]
    );
}

#[test]
fn each_begin_has_its_end() {
    let mut open = Vec::new();
    for token in tokens(nested_file()) {
        match token {
            Token::RootBegin { .. } => open.push(Token::RootEnd),
            Token::StructBegin { .. } => open.push(Token::StructEnd),
            Token::ItemBegin { .. } => open.push(Token::ItemEnd),
            Token::ListBegin(_) => open.push(Token::ListEnd),
            Token::RootEnd | Token::StructEnd | Token::ItemEnd | Token::ListEnd => {
                assert_eq!(open.pop(), Some(token))
            }
            Token::Label(_) | Token::Value(_) => assert!(!open.is_empty()),
        }
    }
    assert!(open.is_empty());
}

#[test]
fn token_count_of_the_header() {
    // two tokens for the one struct
    let p = parser(empty_file());
    assert_eq!(p.list_count(), 0);
    assert_eq!(p.token_count(), 2);
    assert!(tokens(empty_file()).len() as u64 >= p.token_count());
    let p = parser(one_field_file());
    assert_eq!(p.list_count(), 0);
    assert_eq!(p.token_count(), 2);
    assert!(tokens(one_field_file()).len() as u64 >= p.token_count());
    assert_eq!(p.header().fields.count, 1);
}

#[test]
fn token_count_counts_each_list_once() {
    // one struct and one list without items: five tokens
    let mut ser = Serializer::new();
    let root = ser.serialize_struct(1).unwrap();
    add_empty_items(&mut ser, &root, "list", 0);
    let file = to_vec(&ser);
    assert_eq!(file.len(), 100);
    let p = parser(file.clone());
    assert_eq!(p.header().list_indices.count, 4);
    assert_eq!(p.list_count(), 1);
    assert_eq!(p.token_count(), 4);
    assert_eq!(tokens(file).len(), 5);

    // four structs and one list of three items: eleven tokens
    let mut ser = Serializer::new();
    let root = ser.serialize_struct(1).unwrap();
    add_empty_items(&mut ser, &root, "list", 3);
    let file = to_vec(&ser);
    let p = parser(file.clone());
    assert_eq!(p.header().list_indices.count, 16);
    assert_eq!(p.list_count(), 1);
    assert_eq!(p.token_count(), 10);
    assert_eq!(tokens(file).len(), 11);
}

#[test]
fn token_count_is_a_lower_bound_where_all_is_reached() {
    let file = nested_file();
    let p = parser(file.clone());
    // four structs, one list, seven fields
    assert_eq!(p.header().structs.count, 4);
    assert_eq!(p.header().fields.count, 7);
    assert_eq!(p.list_count(), 1);
    assert_eq!(p.token_count(), 10);
    assert!(tokens(file).len() as u64 >= p.token_count());
}

#[test]
fn token_count_counts_records_that_are_never_read() {
    // a second struct that stands nowhere below the first
    let mut ser = Serializer::new();
    ser.serialize_struct(0).unwrap();
    ser.serialize_struct(0).unwrap();
    let file = to_vec(&ser);
    let p = parser(file.clone());
    assert_eq!(p.header().structs.count, 2);
    assert_eq!(p.token_count(), 4);
    assert_eq!(tokens(file).len(), 2);
}

#[test]
fn list_count_passes_over_fields_that_the_file_lacks() {
    // the header tells of three fields, the file holds one
    let mut file = one_field_file();
    file[20] = 3;
    let p = parser(file);
    assert_eq!(p.list_count(), 0);
    assert_eq!(p.token_count(), 3);
}

#[test]
fn skip_passes_over_a_struct() {
    let mut parser = parser(nested_file());
    let root = parser.next_token().unwrap();
    assert_eq!(parser.next_token(), Ok(Token::Label(LabelIndex(0))));
    let value = parser.next_token().unwrap();
    // after a value nothing is passed over
    parser.skip_next(value);
    assert_eq!(parser.next_token(), Ok(Token::Label(LabelIndex(1))));
    let begin = parser.next_token().unwrap();
    assert_eq!(begin, Token::StructBegin { tag: Tag(0), count: 2 });
    parser.skip_next(begin);
    assert_eq!(parser.next_token(), Ok(Token::Label(LabelIndex(4))));
    let list = parser.next_token().unwrap();
    assert_eq!(list, Token::ListBegin(2));
    let item = parser.next_token().unwrap();
    assert_eq!(item, Token::ItemBegin { tag: Tag(0), count: 1, index: 0 });
    parser.skip_next(item);
    assert_eq!(parser.next_token(), Ok(Token::ItemBegin { tag: Tag(0), count: 1, index: 1 }));
    // what is passed over is what is open innermost, which is the item
    parser.skip_next(list);
    assert_eq!(parser.next_token(), Ok(Token::ListEnd));
    assert_eq!(parser.next_token(), Ok(Token::RootEnd));
    let _ = root;
}

#[test]
fn skip_passes_over_a_list_and_the_root() {
    let mut parser = parser(nested_file());
    parser.next_token().unwrap();
    parser.next_token().unwrap();
    parser.next_token().unwrap();
    parser.next_token().unwrap();
    let begin = parser.next_token().unwrap();
    parser.skip_next(begin);
    assert_eq!(parser.next_token(), Ok(Token::Label(LabelIndex(4))));
    let list = parser.next_token().unwrap();
    assert_eq!(list, Token::ListBegin(2));
    parser.skip_next(list);
    assert_eq!(parser.next_token(), Ok(Token::RootEnd));
    assert_eq!(parser.next_token(), Err(Error::ParsingFinished));

    let mut parser = self::parser(nested_file());
    let root = parser.next_token().unwrap();
    parser.skip_next(root);
    assert!(parser.is_finished());
    assert_eq!(parser.next(), None);
}

#[test]
fn unknown_type_of_a_field_is_an_error() {
    let mut file = one_field_file();
    file[68] = 16;
    let mut parser = parser(file);
    parser.next_token().unwrap();
    assert_eq!(parser.next_token(), Ok(Token::Label(LabelIndex(0))));
    assert_eq!(parser.next_token(), Err(Error::UnknownValue { tag: 16, value: 42 }));
    // the parser stays where it was
    assert_eq!(parser.next_token(), Err(Error::UnknownValue { tag: 16, value: 42 }));
}

#[test]
fn short_file_is_an_error() {
    assert_eq!(
        Parser::new(Source::new(b"GFF V3.2".to_vec())).err(),
        Some(Error::Io(IoError::UnexpectedEof))
    );
    let mut file = one_field_file();
    file.truncate(75);
    let mut parser = parser(file);
    parser.next_token().unwrap();
    assert_eq!(parser.next_token(), Err(Error::Io(IoError::UnexpectedEof)));
}

/// A file whose one struct holds one value of each type.
fn all_values() -> (Vec<u8>, LocString) {
    let loc = LocString {
        str_ref: StrRef(0xFFFF_FFFF),
        strings: vec![
            SubString { key: StringKey(0), string: "hello".to_owned() },
            SubString { key: StringKey(3), string: "salut à tous".to_owned() },
        ],
    };
    let mut ser = Serializer::new();
    let root = ser.serialize_struct(8).unwrap();
    let values = [
        SimpleValue::Dword64(0xDEAD_BEAF_00FF_FF00),
        SimpleValue::Int64(-6),
        SimpleValue::Double(std::f64::consts::E.to_bits()),
        SimpleValue::String("String".to_owned()),
        SimpleValue::ResRef(ResRef(b"resref".to_vec())),
        SimpleValue::LocString(loc.clone()),
        SimpleValue::Void(b"Vec<u8>".to_vec()),
        SimpleValue::Float(std::f32::consts::PI.to_bits()),
    ];
    for (i, value) in values.iter().enumerate() {
        root.serialize_field(&mut ser, &format!("f{}", i), value).unwrap();
    }
    (to_vec(&ser), loc)
}

#[test]
fn values_are_read_from_their_places() {
    let (file, loc) = all_values();
    let mut parser = parser(file);
    assert_eq!(parser.read_u64(U64Index(0)), Ok(0xDEAD_BEAF_00FF_FF00));
    assert_eq!(parser.read_i64(I64Index(8)), Ok(-6));
    assert_eq!(parser.read_f64(F64Index(16)).map(f64::from_bits), Ok(std::f64::consts::E));
    assert_eq!(parser.read_string(StringIndex(24)), Ok("String".to_owned()));
    assert_eq!(parser.read_resref(ResRefIndex(34)), Ok(ResRef(b"resref".to_vec())));
    assert_eq!(parser.read_loc_string(LocStringIndex(41)), Ok(loc));
    let at = 41 + 12 + (8 + 5) + (8 + 13);
    assert_eq!(parser.read_byte_buf(BinaryIndex(at)), Ok(b"Vec<u8>".to_vec()));
    assert_eq!(parser.read_u64(U64Index(100_000)), Err(Error::Io(IoError::UnexpectedEof)));
    // reading values does not move the parser in the stream
    assert_eq!(parser.next_token(), Ok(Token::RootBegin { tag: Tag(0), count: 8 }));
}

#[test]
fn read_value_reads_what_the_token_tells_of() {
    let (file, loc) = all_values();
    let mut parser = parser(file);
    let mut values = Vec::new();
    while let Some(token) = parser.next() {
        if let Token::Value(value) = token.unwrap() {
            values.push(parser.read_value(value).unwrap());
        }
    }
    assert_eq!(
        values,
        vec![
            SimpleValue::Dword64(0xDEAD_BEAF_00FF_FF00),
            SimpleValue::Int64(-6),
            SimpleValue::Double(std::f64::consts::E.to_bits()),
            SimpleValue::String("String".to_owned()),
            SimpleValue::ResRef(ResRef(b"resref".to_vec())),
            SimpleValue::LocString(loc),
            SimpleValue::Void(b"Vec<u8>".to_vec()),
            SimpleValue::Float(std::f32::consts::PI.to_bits()),
        ]
    );
}

#[test]
fn text_is_read_in_the_encoding_chosen() {
    // the text "Привет" in Windows-1251
    let mut ser = Serializer::new();
    let root = ser.serialize_struct(1).unwrap();
    let text = vec![0xCF, 0xF0, 0xE8, 0xE2, 0xE5, 0xF2];
    root.serialize_field(&mut ser, "text", &SimpleValue::Void(text)).unwrap();
    let file = to_vec(&ser);

    let mut parser =
        Parser::with_encoding(Source::new(file.clone()), "windows-1251", DecoderTrap::Strict)
            .unwrap();
    assert_eq!(parser.read_string(StringIndex(0)), Ok("Привет".to_owned()));

    // in UTF-8 these bytes are no text
    let mut parser = self::parser(file.clone());
    assert!(matches!(parser.read_string(StringIndex(0)), Err(Error::Encoding(_))));

    // unless what is no text is replaced or left out
    let mut parser =
        Parser::with_encoding(Source::new(file.clone()), "utf-8", DecoderTrap::Replace).unwrap();
    assert_eq!(
        parser.read_string(StringIndex(0)),
        Ok("\u{fffd}\u{fffd}\u{fffd}\u{fffd}\u{fffd}\u{fffd}".to_owned())
    );
    let mut parser =
        Parser::with_encoding(Source::new(file.clone()), "utf-8", DecoderTrap::Ignore).unwrap();
    assert_eq!(parser.read_string(StringIndex(0)), Ok(String::new()));

    // a label that names no encoding shows when a text is read
    let mut parser =
        Parser::with_encoding(Source::new(file), "no such encoding", DecoderTrap::Strict).unwrap();
    assert_eq!(
        parser.read_string(StringIndex(0)),
        Err(Error::Encoding("unknown encoding".to_owned()))
    );
    assert_eq!(parser.read_byte_buf(BinaryIndex(0)).map(|b| b.len()), Ok(6));
}
