//! Reading a GFF file by what is expected in it.
//!
//! A `Deserializer` is a parser that can look one token ahead, with a
//! function for each kind of value that a reader may expect next. Each takes
//! the next token, tells whether it is of the kind expected, and reads the
//! value that the token tells of. A layer that builds values of the
//! program out of files calls them as the shape of those values demands.

use crate::error::{eof, Error, Result};
use crate::label::Label;
use crate::parser::states::State;
use crate::parser::{
    loc_string_at, run_at, short_run_at, string_at, Failure, Parser, Token,
};
use crate::source::{u64_at, Source};
use crate::string::{GffString, LocString};
use crate::text::DecoderTrap;
use crate::value::{SimpleValue, SimpleValueRef};
use crate::index::Index;
use std::collections::HashMap;
use vstd::prelude::*;
use vstd::string::{to_string_from_display_ensures, StringSliceAdditionalSpecFns};
use vstd::utf8::{decode_utf8, valid_utf8};

verus! {

broadcast use vstd::utf8::encode_utf8_decode_utf8;

/// A value as it is handed on to the layer that builds values of the
/// program: a value of a file in the form that says most about it.
#[derive(Debug, Clone, PartialEq, Eq)]
pub enum Visit {
    /// An unsigned number of one byte.
    U8(u8),
    /// A signed number of one byte.
    I8(i8),
    /// An unsigned number of two bytes.
    U16(u16),
    /// A signed number of two bytes.
    I16(i16),
    /// An unsigned number of four bytes: the value of a `Dword` field, or
    /// the string reference of a localized string that has one.
    U32(u32),
    /// A signed number of four bytes.
    I32(i32),
    /// An unsigned number of eight bytes.
    U64(u64),
    /// A signed number of eight bytes.
    I64(i64),
    /// The bits of a floating-point number of four bytes.
    F32(u32),
    /// The bits of a floating-point number of eight bytes.
    F64(u64),
    /// A text: the value of a `String` field, or the name of a resource
    /// that is valid UTF-8.
    String(String),
    /// A run of bytes: the value of a `Void` field, or the name of a
    /// resource that is no valid UTF-8.
    ByteBuf(Vec<u8>),
    /// The texts of a localized string that has no string reference, by
    /// the number of their key.
    Texts(HashMap<u32, String>),
}

/// Whether `visit` is the form in which `value` is handed on.
pub open spec fn visits(value: SimpleValue, visit: Visit) -> bool {
    match value {
        SimpleValue::Byte(v) => visit == Visit::U8(v),
        SimpleValue::Char(v) => visit == Visit::I8(v),
        SimpleValue::Word(v) => visit == Visit::U16(v),
        SimpleValue::Short(v) => visit == Visit::I16(v),
        SimpleValue::Dword(v) => visit == Visit::U32(v),
        SimpleValue::Int(v) => visit == Visit::I32(v),
        SimpleValue::Dword64(v) => visit == Visit::U64(v),
        SimpleValue::Int64(v) => visit == Visit::I64(v),
        SimpleValue::Float(v) => visit == Visit::F32(v),
        SimpleValue::Double(v) => visit == Visit::F64(v),
        SimpleValue::String(v) => visit == Visit::String(v),
        SimpleValue::ResRef(v) => if valid_utf8(v.bytes()) {
            visit matches Visit::String(s) && s@ == decode_utf8(v.bytes())
        } else {
            visit matches Visit::ByteBuf(b) && b@ == v.bytes()
        },
        SimpleValue::LocString(v) => if v.str_ref.0 == crate::string::NO_STR_REF {
            visit matches Visit::Texts(map) && map@ == crate::string::texts(v.strings@)
        } else {
            visit == Visit::U32(v.str_ref.0)
        },
        SimpleValue::Void(v) => visit == Visit::ByteBuf(v),
    }
}

/// The form in which `value` is handed on. The name of a resource is a text
/// where it is valid UTF-8, else a run of bytes. A localized string is its
/// string reference where it has one, else its texts.
pub fn visit(value: SimpleValue) -> (v: Visit)
    ensures
        visits(value, v),
{
    match value {
        SimpleValue::Byte(val) => Visit::U8(val),
        SimpleValue::Char(val) => Visit::I8(val),
        SimpleValue::Word(val) => Visit::U16(val),
        SimpleValue::Short(val) => Visit::I16(val),
        SimpleValue::Dword(val) => Visit::U32(val),
        SimpleValue::Int(val) => Visit::I32(val),
        SimpleValue::Dword64(val) => Visit::U64(val),
        SimpleValue::Int64(val) => Visit::I64(val),
        SimpleValue::Float(val) => Visit::F32(val),
        SimpleValue::Double(val) => Visit::F64(val),
        SimpleValue::String(val) => Visit::String(val),
        SimpleValue::ResRef(val) => {
            let text = match val.as_str() {
                Ok(str) => Some(str.to_owned()),
                Err(_) => None,
            };
            match text {
                Some(text) => Visit::String(text),
                None => Visit::ByteBuf(val.0),
            }
        },
        SimpleValue::LocString(val) => match GffString::from_loc_string(val) {
            GffString::External(str_ref) => Visit::U32(str_ref.0),
            GffString::Internal(strings) => Visit::Texts(strings),
        },
        SimpleValue::Void(val) => Visit::ByteBuf(val),
    }
}

/// What a reader that expects nothing in particular finds next.
#[derive(Debug, Clone, PartialEq, Eq)]
pub enum Any {
    /// A value, which was read in full.
    Value(Visit),
    /// A list, which was begun. Its items follow, and then `ListEnd`.
    List,
    /// A struct, which was begun. Its fields follow, and then the token
    /// given.
    Struct(Token),
    /// The label of a field.
    Label(Label),
}

/// A parser of a GFF file that can look one token ahead.
pub struct Deserializer {
    /// The parser that gives the tokens.
    parser: Parser,
    /// The token that was looked at and not taken yet.
    peeked: Option<Token>,
}

/// The number that a token holds, where it is the value of a field of the
/// type `Byte`.
pub open spec fn as_u8(token: Token) -> Result<u8> {
    match token {
        Token::Value(SimpleValueRef::Byte(v)) => Ok(v),
        _ => Err(Error::Unexpected("Byte", token)),
    }
}

/// The number that a token holds, where it is the value of a field of the
/// type `Char`.
pub open spec fn as_i8(token: Token) -> Result<i8> {
    match token {
        Token::Value(SimpleValueRef::Char(v)) => Ok(v),
        _ => Err(Error::Unexpected("Char", token)),
    }
}

/// The number that a token holds, where it is the value of a field of the
/// type `Word`.
pub open spec fn as_u16(token: Token) -> Result<u16> {
    match token {
        Token::Value(SimpleValueRef::Word(v)) => Ok(v),
        _ => Err(Error::Unexpected("Word", token)),
    }
}

/// The number that a token holds, where it is the value of a field of the
/// type `Short`.
pub open spec fn as_i16(token: Token) -> Result<i16> {
    match token {
        Token::Value(SimpleValueRef::Short(v)) => Ok(v),
        _ => Err(Error::Unexpected("Short", token)),
    }
}

/// The number that a token holds, where it is the value of a field of the
/// type `Dword`.
pub open spec fn as_u32(token: Token) -> Result<u32> {
    match token {
        Token::Value(SimpleValueRef::Dword(v)) => Ok(v),
        _ => Err(Error::Unexpected("Dword", token)),
    }
}

/// The number that a token holds, where it is the value of a field of the
/// type `Int`.
pub open spec fn as_i32(token: Token) -> Result<i32> {
    match token {
        Token::Value(SimpleValueRef::Int(v)) => Ok(v),
        _ => Err(Error::Unexpected("Int", token)),
    }
}

/// The bits of the number that a token holds, where it is the value of a
/// field of the type `Float`.
pub open spec fn as_f32(token: Token) -> Result<u32> {
    match token {
        Token::Value(SimpleValueRef::Float(v)) => Ok(v),
        _ => Err(Error::Unexpected("Float", token)),
    }
}

/// The truth value that a token holds, where it is the value of a field of
/// the type `Byte`: every number but 0 stands for true.
pub open spec fn as_bool(token: Token) -> Result<bool> {
    match token {
        Token::Value(SimpleValueRef::Byte(v)) => Ok(v != 0),
        _ => Err(Error::Unexpected("Byte", token)),
    }
}

/// The character that a token holds, where it is the value of a field of
/// the type `Byte` or `Char`: the character with that code.
pub open spec fn as_char(token: Token) -> Result<char> {
    match token {
        Token::Value(SimpleValueRef::Byte(v)) => Ok(v as char),
        Token::Value(SimpleValueRef::Char(v)) => Ok((v as u8) as char),
        _ => Err(Error::Unexpected("Byte, Char", token)),
    }
}

/// The token that closes what `token` opens, where it opens a struct.
pub open spec fn struct_end(token: Token) -> Result<Token> {
    match token {
        Token::RootBegin { .. } => Ok(Token::RootEnd),
        Token::ItemBegin { .. } => Ok(Token::ItemEnd),
        Token::StructBegin { .. } => Ok(Token::StructEnd),
        _ => Err(Error::Unexpected("RootBegin, ItemBegin, StructBegin", token)),
    }
}

/// The token that closes what `token` opens, where it opens a list.
pub open spec fn list_end(token: Token) -> Result<Token> {
    match token {
        Token::ListBegin(_) => Ok(Token::ListEnd),
        _ => Err(Error::Unexpected("ListBegin", token)),
    }
}

/// Whether a field follows, where `token` is the next token in a struct:
/// it does where the token is a label, and does not where the token closes
/// a struct.
pub open spec fn has_key(token: Token) -> Result<bool> {
    match token {
        Token::RootEnd | Token::ItemEnd | Token::StructEnd => Ok(false),
        Token::Label(_) => Ok(true),
        _ => Err(Error::Unexpected("Label", token)),
    }
}

/// Whether an item follows, where `token` is the next token in a list: it
/// does where the token opens an item, and does not where it closes the
/// list.
pub open spec fn has_element(token: Token) -> Result<bool> {
    match token {
        Token::ListEnd => Ok(false),
        Token::ItemBegin { .. } => Ok(true),
        _ => Err(Error::Unexpected("ItemBegin", token)),
    }
}

/// The name under which a closing token is told of in an error.
pub open spec fn end_name(end: Token) -> &'static str {
    match end {
        Token::RootEnd => "RootEnd",
        Token::ItemEnd => "ItemEnd",
        Token::StructEnd => "StructEnd",
        _ => "ListEnd",
    }
}

/// The number of a field of the type `Byte`.
pub fn expect_u8(token: Token) -> (r: Result<u8>)
    ensures
        r == as_u8(token),
{
    match token {
        Token::Value(SimpleValueRef::Byte(v)) => Ok(v),
        _ => Err(Error::Unexpected("Byte", token)),
    }
}

/// The number of a field of the type `Char`.
pub fn expect_i8(token: Token) -> (r: Result<i8>)
    ensures
        r == as_i8(token),
{
    match token {
        Token::Value(SimpleValueRef::Char(v)) => Ok(v),
        _ => Err(Error::Unexpected("Char", token)),
    }
}

/// The number of a field of the type `Word`.
pub fn expect_u16(token: Token) -> (r: Result<u16>)
    ensures
        r == as_u16(token),
{
    match token {
        Token::Value(SimpleValueRef::Word(v)) => Ok(v),
        _ => Err(Error::Unexpected("Word", token)),
    }
}

/// The number of a field of the type `Short`.
pub fn expect_i16(token: Token) -> (r: Result<i16>)
    ensures
        r == as_i16(token),
{
    match token {
        Token::Value(SimpleValueRef::Short(v)) => Ok(v),
        _ => Err(Error::Unexpected("Short", token)),
    }
}

/// The number of a field of the type `Dword`.
pub fn expect_u32(token: Token) -> (r: Result<u32>)
    ensures
        r == as_u32(token),
{
    match token {
        Token::Value(SimpleValueRef::Dword(v)) => Ok(v),
        _ => Err(Error::Unexpected("Dword", token)),
    }
}

/// The number of a field of the type `Int`.
pub fn expect_i32(token: Token) -> (r: Result<i32>)
    ensures
        r == as_i32(token),
{
    match token {
        Token::Value(SimpleValueRef::Int(v)) => Ok(v),
        _ => Err(Error::Unexpected("Int", token)),
    }
}

/// The bits of the number of a field of the type `Float`.
pub fn expect_f32(token: Token) -> (r: Result<u32>)
    ensures
        r == as_f32(token),
{
    match token {
        Token::Value(SimpleValueRef::Float(v)) => Ok(v),
        _ => Err(Error::Unexpected("Float", token)),
    }
}

/// The truth value of a field of the type `Byte`.
pub fn expect_bool(token: Token) -> (r: Result<bool>)
    ensures
        r == as_bool(token),
{
    match token {
        Token::Value(SimpleValueRef::Byte(v)) => Ok(v != 0),
        _ => Err(Error::Unexpected("Byte", token)),
    }
}

/// The character of a field of the type `Byte` or `Char`.
pub fn expect_char(token: Token) -> (r: Result<char>)
    ensures
        r == as_char(token),
{
    match token {
        Token::Value(SimpleValueRef::Byte(v)) => Ok(v as char),
        Token::Value(SimpleValueRef::Char(v)) => Ok((v as u8) as char),
        _ => Err(Error::Unexpected("Byte, Char", token)),
    }
}

/// The token that closes the struct that `token` opens.
pub fn expect_struct(token: Token) -> (r: Result<Token>)
    ensures
        r == struct_end(token),
{
    match token {
        Token::RootBegin { .. } => Ok(Token::RootEnd),
        Token::ItemBegin { .. } => Ok(Token::ItemEnd),
        Token::StructBegin { .. } => Ok(Token::StructEnd),
        _ => Err(Error::Unexpected("RootBegin, ItemBegin, StructBegin", token)),
    }
}

/// The token that closes the list that `token` opens.
pub fn expect_list(token: Token) -> (r: Result<Token>)
    ensures
        r == list_end(token),
{
    match token {
        Token::ListBegin(_) => Ok(Token::ListEnd),
        _ => Err(Error::Unexpected("ListBegin", token)),
    }
}

/// What a token is taken for where the closing token `end` is expected.
pub open spec fn as_end(end: Token, token: Token) -> Result<()> {
    if token == end && end.spec_is_end() {
        Ok(())
    } else {
        Err(Error::Unexpected(end_name(end), token))
    }
}

/// Takes `token` for the closing token `end`.
pub fn expect_end(end: Token, token: Token) -> (r: Result<()>)
    ensures
        r == as_end(end, token),
{
    match (end, token) {
        (Token::RootEnd, Token::RootEnd) => Ok(()),
        (Token::ItemEnd, Token::ItemEnd) => Ok(()),
        (Token::StructEnd, Token::StructEnd) => Ok(()),
        (Token::ListEnd, Token::ListEnd) => Ok(()),
        (Token::RootEnd, token) => Err(Error::Unexpected("RootEnd", token)),
        (Token::ItemEnd, token) => Err(Error::Unexpected("ItemEnd", token)),
        (Token::StructEnd, token) => Err(Error::Unexpected("StructEnd", token)),
        (_, token) => Err(Error::Unexpected("ListEnd", token)),
    }
}

impl Deserializer {
    /// The bytes of the file.
    pub closed spec fn spec_data(&self) -> Seq<u8> {
        self.parser.spec_data()
    }

    /// The header of the file.
    pub closed spec fn spec_header(&self) -> crate::header::Header {
        self.parser.spec_header()
    }

    /// The label of the encoding of the texts of the file.
    pub closed spec fn spec_encoding(&self) -> Seq<char> {
        self.parser.spec_encoding()
    }

    /// What is done with bytes that are no text.
    pub closed spec fn spec_trap(&self) -> DecoderTrap {
        self.parser.spec_trap()
    }

    /// What the parser reads next.
    pub closed spec fn spec_state(&self) -> State {
        self.parser.spec_state()
    }

    /// The token that was looked at and not taken yet.
    pub closed spec fn spec_peeked(&self) -> Option<Token> {
        self.peeked
    }

    /// Whether the parser is in a state that it can be in.
    pub closed spec fn wf(&self) -> bool {
        self.parser.wf()
    }

    /// Whether `other` reads the same file with the same settings.
    pub open spec fn same_file(&self, other: &Deserializer) -> bool {
        &&& other.spec_data() == self.spec_data()
        &&& other.spec_header() == self.spec_header()
        &&& other.spec_encoding() == self.spec_encoding()
        &&& other.spec_trap() == self.spec_trap()
    }

    /// The next token: the one that was looked at, where there is one, else
    /// the one that the parser gives; and the state of the parser behind it.
    pub open spec fn spec_next(&self) -> Result<(Token, State)> {
        match self.spec_peeked() {
            Some(token) => Ok((token, self.spec_state())),
            None => self.spec_state().step(self.spec_data(), self.spec_header()),
        }
    }

    /// Whether `next` is this deserializer after the next token was taken:
    /// it stands behind that token, and has looked at no token behind it. A
    /// token that cannot be read leaves the deserializer where it is.
    pub open spec fn taken(&self, next: &Deserializer) -> bool {
        &&& self.same_file(next)
        &&& next.spec_peeked() is None
        &&& next.spec_state() == match self.spec_next() {
            Ok((_, state)) => state,
            Err(_) => self.spec_state(),
        }
    }

    /// Whether `next` is this deserializer in the same place: a value may
    /// have been read, which leaves no trace.
    pub open spec fn same_place(&self, next: &Deserializer) -> bool {
        &&& self.same_file(next)
        &&& next.spec_peeked() == self.spec_peeked()
        &&& next.spec_state() == self.spec_state()
    }

    /// A deserializer of the file that `reader` holds, whose texts are
    /// UTF-8. Reads the header of the file.
    pub fn new(reader: Source) -> (r: Result<Deserializer>)
        ensures
            match r {
                Ok(de) => de.starts(reader, "utf-8"@, DecoderTrap::Strict),
                Err(e) => reader.ahead(56) is None && e == eof(),
            },
    {
        Ok(Deserializer { parser: Parser::new(reader)?, peeked: None })
    }

    /// Whether this is the deserializer that was just made for the file
    /// that `reader` holds, with the settings given.
    pub open spec fn starts(&self, reader: Source, encoding: Seq<char>, trap: DecoderTrap) -> bool {
        &&& self.wf()
        &&& self.spec_data() == reader.data@
        &&& reader.ahead(56) == Some(self.spec_header().bytes())
        &&& self.spec_header().signature.canonical()
        &&& self.spec_encoding() == encoding
        &&& self.spec_trap() == trap
        &&& self.spec_peeked() is None
        &&& self.spec_state() is Start
        &&& self.spec_state().wf()
    }

    /// A deserializer of the file that `reader` holds, whose texts are in
    /// the encoding that the label `encoding` names. Reads the header of
    /// the file.
    pub fn with_encoding(reader: Source, encoding: &str, trap: DecoderTrap) -> (r: Result<
        Deserializer,
    >)
        ensures
            match r {
                Ok(de) => de.starts(reader, encoding@, trap),
                Err(e) => reader.ahead(56) is None && e == eof(),
            },
    {
        let parser = Parser::with_encoding(reader, encoding, trap)?;
        proof {
            parser.lemma_wf();
        }
        Ok(Deserializer { parser, peeked: None })
    }

    /// Takes the next token.
    pub fn next_token(&mut self) -> (r: Result<Token>)
        ensures
            old(self).wf() ==> final(self).wf(),
            old(self).taken(final(self)),
            match old(self).spec_next() {
                Ok((token, _)) => r == Ok::<Token, Error>(token),
                Err(e) => r == Err::<Token, Error>(e),
            },
    {
        match self.peeked.take() {
            Some(v) => Ok(v),
            None => self.parser.next_token(),
        }
    }

    /// Looks at the next token, and leaves it to be taken.
    pub fn peek_token(&mut self) -> (r: Result<Token>)
        ensures
            old(self).wf() ==> final(self).wf(),
            old(self).same_file(final(self)),
            match old(self).spec_next() {
                Ok((token, state)) => r == Ok::<Token, Error>(token) && final(self).spec_peeked()
                    == Some(token) && final(self).spec_state() == state,
                Err(e) => r == Err::<Token, Error>(e) && final(self).spec_peeked() is None
                    && final(self).spec_state() == old(self).spec_state(),
            },
            final(self).spec_next() == old(self).spec_next(),
    {
        if self.peeked.is_none() {
            let token = self.parser.next_token()?;
            self.peeked = Some(token);
        }
        match self.peeked {
            Some(value) => Ok(value),
            None => Err(Error::ParsingFinished),
        }
    }

    /// Whether `r` is what `expect` makes of the next token.
    pub open spec fn expects<T>(&self, expect: spec_fn(Token) -> Result<T>, r: Result<T>) -> bool {
        match self.spec_next() {
            Ok((token, _)) => r == expect(token),
            Err(e) => r == Err::<T, Error>(e),
        }
    }

    /// Takes the value of a field of the type `Byte`.
    pub fn deserialize_u8(&mut self) -> (r: Result<u8>)
        ensures
            old(self).wf() ==> final(self).wf(),
            old(self).taken(final(self)),
            old(self).expects(|t: Token| as_u8(t), r),
    {
        let token = self.next_token()?;
        expect_u8(token)
    }

    /// Takes the value of a field of the type `Char`.
    pub fn deserialize_i8(&mut self) -> (r: Result<i8>)
        ensures
            old(self).wf() ==> final(self).wf(),
            old(self).taken(final(self)),
            old(self).expects(|t: Token| as_i8(t), r),
    {
        let token = self.next_token()?;
        expect_i8(token)
    }

    /// Takes the value of a field of the type `Word`.
    pub fn deserialize_u16(&mut self) -> (r: Result<u16>)
        ensures
            old(self).wf() ==> final(self).wf(),
            old(self).taken(final(self)),
            old(self).expects(|t: Token| as_u16(t), r),
    {
        let token = self.next_token()?;
        expect_u16(token)
    }

    /// Takes the value of a field of the type `Short`.
    pub fn deserialize_i16(&mut self) -> (r: Result<i16>)
        ensures
            old(self).wf() ==> final(self).wf(),
            old(self).taken(final(self)),
            old(self).expects(|t: Token| as_i16(t), r),
    {
        let token = self.next_token()?;
        expect_i16(token)
    }

    /// Takes the value of a field of the type `Dword`.
    pub fn deserialize_u32(&mut self) -> (r: Result<u32>)
        ensures
            old(self).wf() ==> final(self).wf(),
            old(self).taken(final(self)),
            old(self).expects(|t: Token| as_u32(t), r),
    {
        let token = self.next_token()?;
        expect_u32(token)
    }

    /// Takes the value of a field of the type `Int`.
    pub fn deserialize_i32(&mut self) -> (r: Result<i32>)
        ensures
            old(self).wf() ==> final(self).wf(),
            old(self).taken(final(self)),
            old(self).expects(|t: Token| as_i32(t), r),
    {
        let token = self.next_token()?;
        expect_i32(token)
    }

    /// Takes the value of a field of the type `Float`, as its bits.
    pub fn deserialize_f32(&mut self) -> (r: Result<u32>)
        ensures
            old(self).wf() ==> final(self).wf(),
            old(self).taken(final(self)),
            old(self).expects(|t: Token| as_f32(t), r),
    {
        let token = self.next_token()?;
        expect_f32(token)
    }

    /// Takes the value of a field of the type `Byte` as a truth value.
    pub fn deserialize_bool(&mut self) -> (r: Result<bool>)
        ensures
            old(self).wf() ==> final(self).wf(),
            old(self).taken(final(self)),
            old(self).expects(|t: Token| as_bool(t), r),
    {
        let token = self.next_token()?;
        expect_bool(token)
    }

    /// Takes the value of a field of the type `Byte` or `Char` as a
    /// character.
    pub fn deserialize_char(&mut self) -> (r: Result<char>)
        ensures
            old(self).wf() ==> final(self).wf(),
            old(self).taken(final(self)),
            old(self).expects(|t: Token| as_char(t), r),
    {
        let token = self.next_token()?;
        expect_char(token)
    }

    /// The number of eight bytes that `token` tells of, where it is the
    /// value of a field of the type `Dword64`.
    pub open spec fn u64_of(&self, token: Token) -> Result<u64> {
        match token {
            Token::Value(SimpleValueRef::Dword64(index)) => match u64_at(
                self.spec_data(),
                index.spec_offset(&self.spec_header()),
            ) {
                Some(v) => Ok(v),
                None => Err(eof()),
            },
            _ => Err(Error::Unexpected("Dword64", token)),
        }
    }

    /// The number of eight bytes that `token` tells of, where it is the
    /// value of a field of the type `Int64`.
    pub open spec fn i64_of(&self, token: Token) -> Result<i64> {
        match token {
            Token::Value(SimpleValueRef::Int64(index)) => match u64_at(
                self.spec_data(),
                index.spec_offset(&self.spec_header()),
            ) {
                Some(v) => Ok(v as i64),
                None => Err(eof()),
            },
            _ => Err(Error::Unexpected("Int64", token)),
        }
    }

    /// The bits of the number of eight bytes that `token` tells of, where
    /// it is the value of a field of the type `Double`.
    pub open spec fn f64_of(&self, token: Token) -> Result<u64> {
        match token {
            Token::Value(SimpleValueRef::Double(index)) => match u64_at(
                self.spec_data(),
                index.spec_offset(&self.spec_header()),
            ) {
                Some(v) => Ok(v),
                None => Err(eof()),
            },
            _ => Err(Error::Unexpected("Double", token)),
        }
    }

    /// Takes the value of a field of the type `Dword64`.
    pub fn deserialize_u64(&mut self) -> (r: Result<u64>)
        ensures
            old(self).wf() ==> final(self).wf(),
            old(self).taken(final(self)),
            old(self).expects(|t: Token| old(self).u64_of(t), r),
    {
        let token = self.next_token()?;
        if let Token::Value(SimpleValueRef::Dword64(value)) = token {
            return self.parser.read_u64(value);
        }
        Err(Error::Unexpected("Dword64", token))
    }

    /// Takes the value of a field of the type `Int64`.
    pub fn deserialize_i64(&mut self) -> (r: Result<i64>)
        ensures
            old(self).wf() ==> final(self).wf(),
            old(self).taken(final(self)),
            old(self).expects(|t: Token| old(self).i64_of(t), r),
    {
        let token = self.next_token()?;
        if let Token::Value(SimpleValueRef::Int64(value)) = token {
            return self.parser.read_i64(value);
        }
        Err(Error::Unexpected("Int64", token))
    }

    /// Takes the value of a field of the type `Double`, as its bits.
    pub fn deserialize_f64(&mut self) -> (r: Result<u64>)
        ensures
            old(self).wf() ==> final(self).wf(),
            old(self).taken(final(self)),
            old(self).expects(|t: Token| old(self).f64_of(t), r),
    {
        let token = self.next_token()?;
        if let Token::Value(SimpleValueRef::Double(value)) = token {
            return self.parser.read_f64(value);
        }
        Err(Error::Unexpected("Double", token))
    }

    /// Whether `r` is the text that `token` tells of: the value of a field
    /// of the type `String`, or the name of a resource, which must be valid
    /// UTF-8.
    pub open spec fn string_of(&self, token: Token, r: Result<String>) -> bool {
        match token {
            Token::Value(SimpleValueRef::String(index)) => match string_at(
                self.spec_data(),
                index.spec_offset(&self.spec_header()),
                self.spec_encoding(),
                self.spec_trap(),
            ) {
                Ok(text) => r matches Ok(s) && s@ == text,
                Err(failure) => r matches Err(e) && e.tells(failure),
            },
            Token::Value(SimpleValueRef::ResRef(index)) => match short_run_at(
                self.spec_data(),
                index.spec_offset(&self.spec_header()),
            ) {
                Some(bytes) => if valid_utf8(bytes) {
                    r matches Ok(s) && s@ == decode_utf8(bytes)
                } else {
                    r matches Err(e) && e is Encoding
                },
                None => r == Err::<String, Error>(eof()),
            },
            _ => r == Err::<String, Error>(Error::Unexpected("String, ResRef", token)),
        }
    }

    /// Takes the value of a field of the type `String` or `ResRef` as a
    /// text.
    pub fn deserialize_string(&mut self) -> (r: Result<String>)
        ensures
            old(self).wf() ==> final(self).wf(),
            old(self).taken(final(self)),
            match old(self).spec_next() {
                Ok((token, _)) => old(self).string_of(token, r),
                Err(e) => r == Err::<String, Error>(e),
            },
    {
        let token = self.next_token()?;
        match token {
            Token::Value(SimpleValueRef::String(value)) => self.parser.read_string(value),
            Token::Value(SimpleValueRef::ResRef(value)) => {
                let name = self.parser.read_resref(value)?;
                match name.as_string() {
                    Ok(text) => Ok(text),
                    Err(e) => Err(Error::Encoding(e.to_string())),
                }
            },
            _ => Err(Error::Unexpected("String, ResRef", token)),
        }
    }

    /// Whether `r` is the run of bytes that `token` tells of: the value of
    /// a field of the type `Void`, or the name of a resource.
    pub open spec fn bytes_of(&self, token: Token, r: Result<Vec<u8>>) -> bool {
        match token {
            Token::Value(SimpleValueRef::Void(index)) => match run_at(
                self.spec_data(),
                index.spec_offset(&self.spec_header()),
            ) {
                Some(bytes) => r matches Ok(v) && v@ == bytes,
                None => r == Err::<Vec<u8>, Error>(eof()),
            },
            Token::Value(SimpleValueRef::ResRef(index)) => match short_run_at(
                self.spec_data(),
                index.spec_offset(&self.spec_header()),
            ) {
                Some(bytes) => r matches Ok(v) && v@ == bytes,
                None => r == Err::<Vec<u8>, Error>(eof()),
            },
            _ => r == Err::<Vec<u8>, Error>(Error::Unexpected("Void, ResRef", token)),
        }
    }

    /// Takes the value of a field of the type `Void` or `ResRef` as a run
    /// of bytes.
    pub fn deserialize_byte_buf(&mut self) -> (r: Result<Vec<u8>>)
        ensures
            old(self).wf() ==> final(self).wf(),
            old(self).taken(final(self)),
            match old(self).spec_next() {
                Ok((token, _)) => old(self).bytes_of(token, r),
                Err(e) => r == Err::<Vec<u8>, Error>(e),
            },
    {
        let token = self.next_token()?;
        match token {
            Token::Value(SimpleValueRef::Void(value)) => self.parser.read_byte_buf(value),
            Token::Value(SimpleValueRef::ResRef(value)) => {
                let name = self.parser.read_resref(value)?;
                Ok(name.0)
            },
            _ => Err(Error::Unexpected("Void, ResRef", token)),
        }
    }

    /// Takes a whole struct for a value that is nothing: the token that
    /// opens it, and all up to the token that closes it.
    pub fn deserialize_unit(&mut self) -> (r: Result<()>)
        ensures
            old(self).wf() ==> final(self).wf(),
            old(self).same_file(final(self)),
            final(self).spec_peeked() is None,
            match old(self).spec_next() {
                Ok((token, state)) => match struct_end(token) {
                    Ok(_) => r is Ok && final(self).spec_state() == state.spec_close(),
                    Err(e) => r == Err::<(), Error>(e) && final(self).spec_state() == state,
                },
                Err(e) => r == Err::<(), Error>(e) && final(self).spec_state() == old(
                    self,
                ).spec_state(),
            },
    {
        let token = self.next_token()?;
        expect_struct(token)?;
        self.parser.skip_next(token);
        Ok(())
    }

    /// Takes a value that is of no interest: the next token and, where it
    /// opens a struct or a list, all up to the token that closes it.
    pub fn deserialize_ignored_any(&mut self) -> (r: Result<()>)
        ensures
            old(self).wf() ==> final(self).wf(),
            old(self).same_file(final(self)),
            final(self).spec_peeked() is None,
            match old(self).spec_next() {
                Ok((token, state)) => r is Ok && final(self).spec_state() == state.spec_skip(
                    token,
                ),
                Err(e) => r == Err::<(), Error>(e) && final(self).spec_state() == old(
                    self,
                ).spec_state(),
            },
    {
        let token = self.next_token()?;
        self.parser.skip_next(token);
        Ok(())
    }

    /// Takes the token that opens a struct, and gives the token that closes
    /// it. The fields of the struct follow.
    pub fn deserialize_map(&mut self) -> (r: Result<Token>)
        ensures
            old(self).wf() ==> final(self).wf(),
            old(self).taken(final(self)),
            old(self).expects(|t: Token| struct_end(t), r),
            r matches Ok(end) ==> end.spec_is_end(),
    {
        let token = self.next_token()?;
        expect_struct(token)
    }

    /// Takes the token that opens a list, and gives the token that closes
    /// it. The items of the list follow.
    pub fn deserialize_seq(&mut self) -> (r: Result<Token>)
        ensures
            old(self).wf() ==> final(self).wf(),
            old(self).taken(final(self)),
            old(self).expects(|t: Token| list_end(t), r),
            r matches Ok(end) ==> end.spec_is_end(),
    {
        let token = self.next_token()?;
        expect_list(token)
    }

    /// Takes the token `end`, which closes a struct or a list.
    pub fn end(&mut self, end: Token) -> (r: Result<()>)
        ensures
            old(self).wf() ==> final(self).wf(),
            old(self).taken(final(self)),
            old(self).expects(|t: Token| as_end(end, t), r),
    {
        let token = self.next_token()?;
        expect_end(end, token)
    }

    /// Tells whether a field follows in the struct that is open. The token
    /// that tells so is left to be taken.
    pub fn next_key(&mut self) -> (r: Result<bool>)
        ensures
            old(self).wf() ==> final(self).wf(),
            old(self).same_file(final(self)),
            final(self).spec_next() == old(self).spec_next(),
            old(self).expects(|t: Token| has_key(t), r),
    {
        let token = self.peek_token()?;
        match token {
            Token::RootEnd | Token::ItemEnd | Token::StructEnd => Ok(false),
            Token::Label(..) => Ok(true),
            token => Err(Error::Unexpected("Label", token)),
        }
    }

    /// Tells whether an item follows in the list that is open. The token
    /// that tells so is left to be taken.
    pub fn next_element(&mut self) -> (r: Result<bool>)
        ensures
            old(self).wf() ==> final(self).wf(),
            old(self).same_file(final(self)),
            final(self).spec_next() == old(self).spec_next(),
            old(self).expects(|t: Token| has_element(t), r),
    {
        let token = self.peek_token()?;
        match token {
            Token::ListEnd => Ok(false),
            Token::ItemBegin { .. } => Ok(true),
            token => Err(Error::Unexpected("ItemBegin", token)),
        }
    }

    /// Whether `r` is the label that `token` tells of.
    pub open spec fn label_of(&self, token: Token, r: Result<Label>) -> bool {
        match token {
            Token::Label(index) => match crate::source::bytes_at(
                self.spec_data(),
                index.spec_offset(&self.spec_header()),
                16,
            ) {
                Some(bytes) => r matches Ok(label) && label.0@ == bytes,
                None => r == Err::<Label, Error>(eof()),
            },
            _ => r == Err::<Label, Error>(Error::Unexpected("Label", token)),
        }
    }

    /// Takes the label of a field.
    pub fn deserialize_label(&mut self) -> (r: Result<Label>)
        ensures
            old(self).wf() ==> final(self).wf(),
            old(self).taken(final(self)),
            match old(self).spec_next() {
                Ok((token, _)) => old(self).label_of(token, r),
                Err(e) => r == Err::<Label, Error>(e),
            },
    {
        let token = self.next_token()?;
        if let Token::Label(index) = token {
            return self.parser.read_label(index);
        }
        Err(Error::Unexpected("Label", token))
    }

    /// Reads the value `value` in full and gives it in the form in which it
    /// is handed on.
    pub fn deserialize_value(&mut self, value: SimpleValueRef) -> (r: Result<Visit>)
        ensures
            old(self).wf() ==> final(self).wf(),
            old(self).same_place(final(self)),
            exists|read: Result<SimpleValue>| #[trigger]
                old(self).reads(value, read) && match read {
                    Ok(v) => r matches Ok(visit) && visits(v, visit),
                    Err(e) => r == Err::<Visit, Error>(e),
                },
    {
        let read = self.parser.read_value(value);
        proof {
            assert(old(self).reads(value, read));
        }
        match read {
            Ok(v) => Ok(visit(v)),
            Err(e) => Err(e),
        }
    }

    /// Whether `r` is what reading the value `value` in full gives.
    pub closed spec fn reads(&self, value: SimpleValueRef, r: Result<SimpleValue>) -> bool {
        self.parser.reads(value, r)
    }

    /// Whether `r` is the name that `token` gives to a variant: the text
    /// of a number, or a text.
    pub open spec fn identifier_of(&self, token: Token, r: Result<String>) -> bool {
        match token {
            Token::Value(SimpleValueRef::Byte(v)) => r matches Ok(s)
                && to_string_from_display_ensures(&v, s),
            Token::Value(SimpleValueRef::Char(v)) => r matches Ok(s)
                && to_string_from_display_ensures(&v, s),
            Token::Value(SimpleValueRef::Word(v)) => r matches Ok(s)
                && to_string_from_display_ensures(&v, s),
            Token::Value(SimpleValueRef::Short(v)) => r matches Ok(s)
                && to_string_from_display_ensures(&v, s),
            Token::Value(SimpleValueRef::Dword(v)) => r matches Ok(s)
                && to_string_from_display_ensures(&v, s),
            Token::Value(SimpleValueRef::Int(v)) => r matches Ok(s)
                && to_string_from_display_ensures(&v, s),
            Token::Value(SimpleValueRef::Dword64(_)) => match self.u64_of(token) {
                Ok(v) => r matches Ok(s) && to_string_from_display_ensures(&v, s),
                Err(e) => r == Err::<String, Error>(e),
            },
            Token::Value(SimpleValueRef::Int64(_)) => match self.i64_of(token) {
                Ok(v) => r matches Ok(s) && to_string_from_display_ensures(&v, s),
                Err(e) => r == Err::<String, Error>(e),
            },
            Token::Value(SimpleValueRef::String(_)) => self.string_of(token, r),
            _ => r == Err::<String, Error>(
                Error::Unexpected("Byte, Char, Word, Short, Dword, Int, Int64, String", token),
            ),
        }
    }

    /// Takes the value of a field as the name of a variant: a number as its
    /// text, a text as it is.
    pub fn deserialize_identifier(&mut self) -> (r: Result<String>)
        ensures
            old(self).wf() ==> final(self).wf(),
            old(self).taken(final(self)),
            match old(self).spec_next() {
                Ok((token, _)) => old(self).identifier_of(token, r),
                Err(e) => r == Err::<String, Error>(e),
            },
    {
        let token = self.next_token()?;
        match token {
            Token::Value(SimpleValueRef::Byte(val)) => Ok(val.to_string()),
            Token::Value(SimpleValueRef::Char(val)) => Ok(val.to_string()),
            Token::Value(SimpleValueRef::Word(val)) => Ok(val.to_string()),
            Token::Value(SimpleValueRef::Short(val)) => Ok(val.to_string()),
            Token::Value(SimpleValueRef::Dword(val)) => Ok(val.to_string()),
            Token::Value(SimpleValueRef::Int(val)) => Ok(val.to_string()),
            Token::Value(SimpleValueRef::Dword64(val)) => {
                let v = self.parser.read_u64(val)?;
                Ok(v.to_string())
            },
            Token::Value(SimpleValueRef::Int64(val)) => {
                let v = self.parser.read_i64(val)?;
                Ok(v.to_string())
            },
            Token::Value(SimpleValueRef::String(val)) => self.parser.read_string(val),
            _ => Err(
                Error::Unexpected("Byte, Char, Word, Short, Dword, Int, Int64, String", token),
            ),
        }
    }

    /// Whether `r` is what a reader that expects nothing in particular
    /// finds in `token`.
    pub open spec fn any_of(&self, token: Token, r: Result<Any>) -> bool {
        match token {
            Token::Value(value) => exists|read: Result<SimpleValue>| #[trigger]
                self.reads(value, read) && match read {
                    Ok(v) => r matches Ok(Any::Value(visit)) && visits(v, visit),
                    Err(e) => r == Err::<Any, Error>(e),
                },
            Token::ListBegin(_) => r == Ok::<Any, Error>(Any::List),
            Token::RootBegin { .. } => r == Ok::<Any, Error>(Any::Struct(Token::RootEnd)),
            Token::ItemBegin { .. } => r == Ok::<Any, Error>(Any::Struct(Token::ItemEnd)),
            Token::StructBegin { .. } => r == Ok::<Any, Error>(Any::Struct(Token::StructEnd)),
            Token::Label(index) => match crate::source::bytes_at(
                self.spec_data(),
                index.spec_offset(&self.spec_header()),
                16,
            ) {
                Some(bytes) => r matches Ok(Any::Label(label)) && label.0@ == bytes,
                None => r == Err::<Any, Error>(eof()),
            },
            _ => r == Err::<Any, Error>(Error::Unexpected("a value", token)),
        }
    }

    /// Takes what comes next, whatever it is: a value is read in full, a
    /// struct or a list is begun, a label is read. A token that closes
    /// something is no value.
    pub fn deserialize_any(&mut self) -> (r: Result<Any>)
        ensures
            old(self).wf() ==> final(self).wf(),
            old(self).taken(final(self)),
            match old(self).spec_next() {
                Ok((token, _)) => old(self).any_of(token, r),
                Err(e) => r == Err::<Any, Error>(e),
            },
    {
        let token = self.next_token()?;
        match token {
            Token::Value(value) => {
                let read = self.parser.read_value(value);
                proof {
                    assert(old(self).reads(value, read));
                }
                match read {
                    Ok(v) => Ok(Any::Value(visit(v))),
                    Err(e) => Err(e),
                }
            },
            Token::ListBegin(_) => Ok(Any::List),
            Token::RootBegin { .. } => Ok(Any::Struct(Token::RootEnd)),
            Token::ItemBegin { .. } => Ok(Any::Struct(Token::ItemEnd)),
            Token::StructBegin { .. } => Ok(Any::Struct(Token::StructEnd)),
            Token::Label(index) => {
                let label = self.parser.read_label(index)?;
                Ok(Any::Label(label))
            },
            _ => Err(Error::Unexpected("a value", token)),
        }
    }
}

} // verus!
