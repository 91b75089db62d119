use serde_gff::error::{Error, IoError};
use serde_gff::header::{Header, Section};
use serde_gff::index::{
    BinaryIndex, F64Index, FieldIndex, FieldIndicesIndex, I64Index, LabelIndex, ListIndicesIndex,
    LocStringIndex, ResRefIndex, StringIndex, StructIndex, U64Index,
};
use serde_gff::parser::states::{
    EndStruct, Item, ReadField, ReadFields, ReadItems, ReadLabel, ReadStruct, Root, State, Struct,
    TokenEmitter,
};
use serde_gff::parser::{Tag, Token};
use serde_gff::raw::{self, FieldType};
use serde_gff::ser::{
    self, loc_string_bytes, put_u32, resref_bytes, run_bytes, to_u32, Field, FieldListIndex,
    ListIndex, Serializer,
};
use serde_gff::sig::Signature;
use serde_gff::source::Source;
use serde_gff::string::{LocString, StrRef, StringKey, SubString};
use serde_gff::text::{decode_text, decoded_text, default_encoding, DecoderTrap};
use serde_gff::value::{SimpleValue, SimpleValueRef};
use serde_gff::ver::Version;
use serde_gff::ResRef;

const EOF: Error = Error::Io(IoError::UnexpectedEof);

/// The file whose one field `value` is the number 42, and its header.
fn one_field_file() -> (Source, Header) {
    let mut v = b"GFF V3.2".to_vec();
    v.extend_from_slice(&[
        56, 0, 0, 0, 1, 0, 0, 0, //
        68, 0, 0, 0, 1, 0, 0, 0, //
        80, 0, 0, 0, 1, 0, 0, 0, //
        96, 0, 0, 0, 0, 0, 0, 0, //
        96, 0, 0, 0, 0, 0, 0, 0, //
        96, 0, 0, 0, 0, 0, 0, 0, //
        7, 0, 0, 0, 0, 0, 0, 0, 1, 0, 0, 0, //
        4, 0, 0, 0, 0, 0, 0, 0, 42, 0, 0, 0, //
        b'v', b'a', b'l', b'u', b'e', 0, 0, 0, 0, 0, 0, 0, 0, 0, 0, 0,
    ]);
    let mut source = Source::new(v);
    let header = Header::read(&mut source).unwrap();
    (source, header)
}

fn finish() -> Box<State> {
    Box::new(State::Finish)
}

#[test]
fn states_lead_through_the_file() {
    let (mut source, header) = one_field_file();
    let state = State::default();
    assert_eq!(
        state,
        State::Start(ReadStruct { index: StructIndex(0), state: finish(), data: Root })
    );
    let (token, state) = state.next(&mut source, &header).unwrap();
    assert_eq!(token, Token::RootBegin { tag: Tag(7), count: 1 });
    let end = State::EndRoot(EndStruct { state: finish(), data: Root });
    assert_eq!(
        state,
        State::ReadLabel(ReadLabel { index: FieldIndex(0), state: Box::new(end.duplicate()) })
    );
    let (token, state) = state.next(&mut source, &header).unwrap();
    assert_eq!(token, Token::Label(LabelIndex(0)));
    assert_eq!(
        state,
        State::ReadField(ReadField { tag: 4, data: 42, state: Box::new(end.duplicate()) })
    );
    let (token, state) = state.next(&mut source, &header).unwrap();
    assert_eq!(token, Token::Value(SimpleValueRef::Dword(42)));
    assert_eq!(state, end);
    let (token, state) = state.next(&mut source, &header).unwrap();
    assert_eq!(token, Token::RootEnd);
    assert_eq!(state, State::Finish);
    assert_eq!(state.next(&mut source, &header), Err(Error::ParsingFinished));
}

#[test]
fn state_of_a_field_list_reads_field_after_field() {
    let (mut source, mut header) = one_field_file();
    // take the label for a field list: its first entry is the number 0x756c6176
    header.field_indices = header.labels;
    let end = State::EndStruct(EndStruct { state: finish(), data: Struct });
    let fields = ReadFields {
        index: FieldIndicesIndex(0, 1),
        count: 2,
        state: Box::new(end.duplicate()),
    };
    // the entry 1 of the list is the number 0x65, the number of no field
    assert_eq!(State::ReadFields(fields).next(&mut source, &header), Err(EOF));
    let fields = ReadFields {
        index: FieldIndicesIndex(4, 1),
        count: 1,
        state: Box::new(end.duplicate()),
    };
    // the entry 1 of the list 4 bytes further on is the number 0
    let (token, state) = fields.next(&mut source, &header).unwrap();
    assert_eq!(token, Token::Label(LabelIndex(0)));
    let rest = State::ReadFields(ReadFields {
        index: FieldIndicesIndex(4, 2),
        count: 0,
        state: Box::new(end.duplicate()),
    });
    assert_eq!(
        state,
        State::ReadField(ReadField { tag: 4, data: 42, state: Box::new(rest.duplicate()) })
    );
    // where no field is left, the struct ends
    assert_eq!(rest.next(&mut source, &header), Ok((Token::StructEnd, State::Finish)));
}

#[test]
fn state_of_a_list_reads_item_after_item() {
    let (mut source, mut header) = one_field_file();
    // take the struct record for a list: its length is 7, its first item the
    // struct 0 and its second the struct 1, which the file does not hold
    header.list_indices = Section { offset: 56, count: 12 };
    let field = ReadField { tag: 15, data: 0, state: finish() };
    let (token, state) = field.next(&mut source, &header).unwrap();
    assert_eq!(token, Token::ListBegin(7));
    assert_eq!(
        state,
        State::ReadItems(ReadItems { index: ListIndicesIndex(0, 0), count: 7, state: finish() })
    );
    let (token, state) = state.next(&mut source, &header).unwrap();
    assert_eq!(token, Token::ItemBegin { tag: Tag(7), count: 1, index: 0 });
    let rest = State::ReadItems(ReadItems {
        index: ListIndicesIndex(0, 1),
        count: 6,
        state: finish(),
    });
    assert_eq!(
        state,
        State::ReadLabel(ReadLabel {
            index: FieldIndex(0),
            state: Box::new(State::EndItem(EndStruct {
                state: Box::new(rest.duplicate()),
                data: Item { index: 0 },
            })),
        })
    );
    assert_eq!(state.close(), rest);
    assert_eq!(rest.duplicate().close(), State::Finish);
    // the struct 1 is the field record, read as a struct record
    let (token, _) = rest.next(&mut source, &header).unwrap();
    assert_eq!(token, Token::ItemBegin { tag: Tag(4), count: 42, index: 1 });
    let empty = ReadItems { index: ListIndicesIndex(0, 7), count: 0, state: finish() };
    assert_eq!(empty.next(&mut source, &header), Ok((Token::ListEnd, State::Finish)));
}

#[test]
fn list_without_items_ends_where_the_reader_stands() {
    let (mut source, mut header) = one_field_file();
    header.list_indices = Section { offset: 56, count: 12 };
    source.seek(7);
    let empty = ReadItems { index: ListIndicesIndex(0, 0), count: 0, state: finish() };
    assert_eq!(empty.next(&mut source, &header), Ok((Token::ListEnd, State::Finish)));
    assert_eq!(source.position(), 7);
    // so do the states that close a struct, and the end of the file
    let end = State::EndStruct(EndStruct { state: finish(), data: Struct });
    assert_eq!(end.next(&mut source, &header), Ok((Token::StructEnd, State::Finish)));
    assert_eq!(source.position(), 7);
    assert_eq!(State::Finish.next(&mut source, &header), Err(Error::ParsingFinished));
    assert_eq!(source.position(), 7);
    // a list with an item is read at its place
    let list = ReadItems { index: ListIndicesIndex(0, 0), count: 1, state: finish() };
    assert!(list.next(&mut source, &header).is_ok());
    assert_ne!(source.position(), 7);
}

#[test]
fn state_of_a_struct_reads_its_record() {
    let (mut source, header) = one_field_file();
    let read = ReadStruct { index: StructIndex(0), state: finish(), data: Item { index: 5 } };
    let (token, state) = read.next(&mut source, &header).unwrap();
    assert_eq!(token, Token::ItemBegin { tag: Tag(7), count: 1, index: 5 });
    assert_eq!(
        state.skip(Token::Label(LabelIndex(0))).skip(token),
        State::Finish
    );
    let read = ReadStruct { index: StructIndex(4), state: finish(), data: Struct };
    assert_eq!(read.next(&mut source, &header), Err(EOF));
    let field = ReadField { tag: 14, data: 0, state: finish() };
    let (token, _) = field.next(&mut source, &header).unwrap();
    assert_eq!(token, Token::StructBegin { tag: Tag(7), count: 1 });
    assert_eq!(ReadStruct::<Root>::default().index, StructIndex(0));
}

#[test]
fn places_of_a_struct_have_their_tokens() {
    assert_eq!(Root.begin(Tag(1), 2), Token::RootBegin { tag: Tag(1), count: 2 });
    assert_eq!(Root.end(), Token::RootEnd);
    assert_eq!(Root.next(finish()), State::EndRoot(EndStruct { state: finish(), data: Root }));
    assert_eq!(Struct.begin(Tag(1), 2), Token::StructBegin { tag: Tag(1), count: 2 });
    assert_eq!(Struct.end(), Token::StructEnd);
    assert_eq!(
        Struct.next(finish()),
        State::EndStruct(EndStruct { state: finish(), data: Struct })
    );
    let item = Item { index: 3 };
    assert_eq!(item.begin(Tag(1), 2), Token::ItemBegin { tag: Tag(1), count: 2, index: 3 });
    assert_eq!(item.end(), Token::ItemEnd);
    assert_eq!(item.next(finish()), State::EndItem(EndStruct { state: finish(), data: item }));
    assert_eq!(
        EndStruct { state: finish(), data: item }.next(),
        Ok((Token::ItemEnd, State::Finish))
    );
}

#[test]
fn tokens_open_and_close() {
    let opening = [
        Token::RootBegin { tag: Tag(0), count: 0 },
        Token::StructBegin { tag: Tag(0), count: 0 },
        Token::ItemBegin { tag: Tag(0), count: 0, index: 0 },
        Token::ListBegin(0),
    ];
    let closing = [Token::RootEnd, Token::StructEnd, Token::ItemEnd, Token::ListEnd];
    let names = ["RootBegin", "StructBegin", "ItemBegin", "ListBegin"];
    for (token, name) in opening.iter().zip(names) {
        assert!(token.is_begin() && !token.is_end());
        assert_eq!(token.name(), name);
    }
    let names = ["RootEnd", "StructEnd", "ItemEnd", "ListEnd"];
    for (token, name) in closing.iter().zip(names) {
        assert!(!token.is_begin() && token.is_end());
        assert_eq!(token.name(), name);
    }
    let label = Token::Label(LabelIndex(0));
    let value = Token::Value(SimpleValueRef::Byte(0));
    assert!(!label.is_begin() && !label.is_end() && !value.is_begin() && !value.is_end());
    assert_eq!(label.name(), "Label");
    assert_eq!(value.name(), "Value");
}

#[test]
fn value_is_made_of_a_type_and_four_bytes() {
    let data = 0xFFFE_FDFC;
    assert_eq!(SimpleValueRef::decode(0, data), Ok(SimpleValueRef::Byte(0xFC)));
    assert_eq!(SimpleValueRef::decode(1, data), Ok(SimpleValueRef::Char(-4)));
    assert_eq!(SimpleValueRef::decode(2, data), Ok(SimpleValueRef::Word(0xFDFC)));
    assert_eq!(SimpleValueRef::decode(3, data), Ok(SimpleValueRef::Short(-516)));
    assert_eq!(SimpleValueRef::decode(4, data), Ok(SimpleValueRef::Dword(data)));
    assert_eq!(SimpleValueRef::decode(5, data), Ok(SimpleValueRef::Int(-66052)));
    assert_eq!(SimpleValueRef::decode(6, data), Ok(SimpleValueRef::Dword64(U64Index(data))));
    assert_eq!(SimpleValueRef::decode(7, data), Ok(SimpleValueRef::Int64(I64Index(data))));
    assert_eq!(SimpleValueRef::decode(8, data), Ok(SimpleValueRef::Float(data)));
    assert_eq!(SimpleValueRef::decode(9, data), Ok(SimpleValueRef::Double(F64Index(data))));
    assert_eq!(SimpleValueRef::decode(10, data), Ok(SimpleValueRef::String(StringIndex(data))));
    assert_eq!(SimpleValueRef::decode(11, data), Ok(SimpleValueRef::ResRef(ResRefIndex(data))));
    assert_eq!(
        SimpleValueRef::decode(12, data),
        Ok(SimpleValueRef::LocString(LocStringIndex(data)))
    );
    assert_eq!(SimpleValueRef::decode(13, data), Ok(SimpleValueRef::Void(BinaryIndex(data))));
    for tag in [14, 15, 16, u32::MAX] {
        assert_eq!(
            SimpleValueRef::decode(tag, data),
            Err(Error::UnknownValue { tag, value: data })
        );
    }
}

#[test]
fn value_gives_its_type_and_its_four_bytes() {
    let values = [
        (SimpleValueRef::Byte(0xFC), FieldType::Byte, 0xFC),
        (SimpleValueRef::Char(-4), FieldType::Char, 0xFC),
        (SimpleValueRef::Word(0xFDFC), FieldType::Word, 0xFDFC),
        (SimpleValueRef::Short(-516), FieldType::Short, 0xFDFC),
        (SimpleValueRef::Dword(7), FieldType::Dword, 7),
        (SimpleValueRef::Int(-66052), FieldType::Int, 0xFFFE_FDFC),
        (SimpleValueRef::Dword64(U64Index(7)), FieldType::Dword64, 7),
        (SimpleValueRef::Int64(I64Index(7)), FieldType::Int64, 7),
        (SimpleValueRef::Float(1f32.to_bits()), FieldType::Float, 0x3F80_0000),
        (SimpleValueRef::Double(F64Index(7)), FieldType::Double, 7),
        (SimpleValueRef::String(StringIndex(7)), FieldType::String, 7),
        (SimpleValueRef::ResRef(ResRefIndex(7)), FieldType::ResRef, 7),
        (SimpleValueRef::LocString(LocStringIndex(7)), FieldType::LocString, 7),
        (SimpleValueRef::Void(BinaryIndex(7)), FieldType::Void, 7),
    ];
    for (value, type_, data) in values {
        assert_eq!(value.field_type(), type_);
        assert_eq!(value.data(), data);
        assert_eq!(SimpleValueRef::decode(type_.code(), data), Ok(value));
        assert_eq!(
            value.into_raw(9),
            raw::Field { tag: type_.code(), label: 9, data: data.to_le_bytes() }
        );
    }
}

#[test]
fn records_are_made_when_all_is_in() {
    let offsets = [0, 12, 20];
    assert_eq!(
        ser::Struct::NoFields.into_raw(&offsets),
        raw::Struct { tag: 0, offset: 0, fields: 0 }
    );
    assert_eq!(
        ser::Struct::OneField(5).into_raw(&offsets),
        raw::Struct { tag: 0, offset: 5, fields: 1 }
    );
    assert_eq!(
        ser::Struct::OneField(5).into_raw(&[]),
        raw::Struct { tag: 0, offset: 5, fields: 1 }
    );
    assert_eq!(
        ser::Struct::MultiField { list: FieldListIndex(1), fields: 2 }.into_raw(&offsets),
        raw::Struct { tag: 0, offset: 12, fields: 2 }
    );
    let simple = Field::Simple { label: LabelIndex(1), value: SimpleValueRef::Short(-2) };
    assert_eq!(
        simple.into_raw(&offsets),
        raw::Field { tag: 3, label: 1, data: [0xFE, 0xFF, 0, 0] }
    );
    let inner = Field::Struct { label: LabelIndex(2), struct_: ser::StructIndex(0x0102) };
    assert_eq!(inner.into_raw(&offsets), raw::Field { tag: 14, label: 2, data: [2, 1, 0, 0] });
    let list = Field::List { label: LabelIndex(3), list: ListIndex(2) };
    assert_eq!(list.into_raw(&offsets), raw::Field { tag: 15, label: 3, data: [20, 0, 0, 0] });
}

#[test]
fn values_are_laid_out_for_the_field_data() {
    let mut out = vec![1];
    put_u32(&mut out, 0x0A0B_0C0D);
    assert_eq!(out, [1, 0x0D, 0x0C, 0x0B, 0x0A]);
    assert_eq!(run_bytes(b"abc"), Ok(vec![3, 0, 0, 0, b'a', b'b', b'c']));
    assert_eq!(run_bytes(b""), Ok(vec![0, 0, 0, 0]));
    assert_eq!(resref_bytes(&ResRef::from("abc")), Ok(vec![3, b'a', b'b', b'c']));
    assert_eq!(resref_bytes(&ResRef(vec![])), Ok(vec![0]));
    assert_eq!(resref_bytes(&ResRef(vec![7; 255])).map(|b| (b.len(), b[0])), Ok((256, 255)));
    assert_eq!(
        resref_bytes(&ResRef(vec![7; 256])),
        Err(Error::Serialize("the name of a resource holds at most 255 bytes".to_owned()))
    );
    let loc = LocString {
        str_ref: StrRef(0x0102_0304),
        strings: vec![SubString { key: StringKey(257), string: "é".to_owned() }],
    };
    assert_eq!(
        loc_string_bytes(&loc),
        Ok(vec![18, 0, 0, 0, 4, 3, 2, 1, 1, 0, 0, 0, 1, 1, 0, 0, 2, 0, 0, 0, 0xC3, 0xA9])
    );
    let empty = LocString { str_ref: StrRef(9), strings: vec![] };
    assert_eq!(loc_string_bytes(&empty), Ok(vec![8, 0, 0, 0, 9, 0, 0, 0, 0, 0, 0, 0]));
    assert_eq!(to_u32(0), Ok(0));
    assert_eq!(to_u32(u32::MAX as usize), Ok(u32::MAX));
    assert_eq!(ser::to_vec(Signature::IFO, &Serializer::new()).map(|file| file.len()), Ok(56));
}

#[test]
fn file_is_written_behind_what_the_writer_holds() {
    let mut ser = Serializer::new();
    let root = ser.serialize_struct(1).unwrap();
    assert!(root.belongs_to(&ser));
    assert!(!root.belongs_to(&Serializer::new()));
    root.serialize_field(&mut ser, "value", &SimpleValue::Dword(42)).unwrap();
    let file = ser::to_vec(Signature::from(*b"GFF "), &ser).unwrap();
    assert_eq!(file.len(), 96);
    let mut out = vec![1, 2, 3];
    ser::to_writer(&mut out, Signature::from(*b"GFF "), &ser).unwrap();
    assert_eq!(out[..3], [1, 2, 3]);
    assert_eq!(out[3..], file[..]);
    let mut other = vec![9];
    ser.write(&mut other, Signature::UTC, Version::new(3, 3)).unwrap();
    assert_eq!(&other[1..9], b"UTC V3.3");
    assert_eq!(other[9..], file[8..]);
}

#[test]
fn each_character_is_read_as_it_was_written_in_utf8() {
    let edges = [
        '\u{0}', '\u{7f}', '\u{80}', '\u{7ff}', '\u{800}', '\u{fff}', '\u{1000}', '\u{cfff}',
        '\u{d000}', '\u{d7ff}', '\u{e000}', '\u{feff}', '\u{ffff}', '\u{10000}', '\u{3ffff}',
        '\u{40000}', '\u{fffff}', '\u{100000}', '\u{10ffff}',
    ];
    for c in edges {
        let text = c.to_string();
        assert_eq!(decode_text("utf-8", DecoderTrap::Strict, text.as_bytes()), Ok(text));
    }
    // all characters, in runs of 4096
    let mut run = String::new();
    for code in 0..=0x10_FFFFu32 {
        if let Some(c) = char::from_u32(code) {
            run.push(c);
        }
        if code % 4096 == 4095 {
            let read = decode_text("utf-8", DecoderTrap::Strict, run.as_bytes());
            assert_eq!(read.as_deref(), Ok(run.as_str()), "near U+{:X}", code);
            run.clear();
        }
    }
    assert!(run.is_empty());
}

#[test]
fn text_is_made_of_bytes_in_an_encoding() {
    assert_eq!(default_encoding(), "utf-8");
    assert_eq!(decode_text("utf-8", DecoderTrap::Strict, "héllo".as_bytes()), Ok("héllo".into()));
    assert_eq!(decode_text("UTF8", DecoderTrap::Strict, b"abc"), Ok("abc".into()));
    assert_eq!(decode_text("latin1", DecoderTrap::Strict, &[0xE9]), Ok("é".into()));
    assert_eq!(decode_text("windows-1251", DecoderTrap::Strict, &[0xE9]), Ok("й".into()));
    assert!(matches!(
        decode_text("utf-8", DecoderTrap::Strict, &[b'a', 0xE9]),
        Err(Error::Encoding(_))
    ));
    assert_eq!(decode_text("utf-8", DecoderTrap::Replace, &[b'a', 0xE9]), Ok("a\u{fffd}".into()));
    assert_eq!(decode_text("utf-8", DecoderTrap::Ignore, &[b'a', 0xE9]), Ok("a".into()));
    assert_eq!(
        decode_text("klingon", DecoderTrap::Replace, b"abc"),
        Err(Error::Encoding("unknown encoding".into()))
    );
    assert_eq!(decoded_text(Some(Ok("text".into()))), Ok("text".into()));
    assert_eq!(decoded_text(Some(Err("why".into()))), Err(Error::Encoding("why".into())));
    assert_eq!(decoded_text(None), Err(Error::Encoding("unknown encoding".into())));
}
