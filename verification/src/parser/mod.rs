//! The pull parser that turns a GFF file into a stream of tokens.
//!
//! The parser walks the file struct by struct and field by field, and gives
//! one token on each request. It holds no tree of the file: a value that is
//! larger than four bytes is given as its place in the file, and is read
//! only when it is asked for.

use crate::error::{eof, Error, Result};
use crate::endian::read_u32;
use crate::header::Header;
use crate::index::{
    BinaryIndex, F64Index, FieldIndex, I64Index, Index, LabelIndex, LocStringIndex, ResRefIndex, StringIndex,
    U64Index,
};
use crate::label::Label;
use crate::resref::ResRef;
use crate::source::{bytes_at, u32_at, u64_at, u8_at, Source};
use crate::string::{LocString, StrRef, StringKey, SubString};
use crate::text::{decode_text, default_encoding, text_of, DecoderTrap};
use crate::value::{SimpleValue, SimpleValueRef};
use vstd::prelude::*;
use vstd::slice::slice_subrange;

pub mod grammar;
pub mod reach;
pub mod states;
pub mod stream;
pub mod token;

pub use self::states::State;
pub use self::token::Token;

verus! {

/// The type tag that a struct of a GFF file carries. The format gives it no
/// meaning of its own.
#[derive(Debug, Clone, Copy, PartialEq, Eq, Hash)]
pub struct Tag(pub u32);

/// Why a value could not be read from the file.
pub enum Failure {
    /// The file ends before the value does.
    Eof,
    /// The bytes of a text are no text in the encoding chosen; the words say
    /// why.
    Encoding(Seq<char>),
}

impl Error {
    /// Whether this error tells of the failure `failure`.
    pub open spec fn tells(self, failure: Failure) -> bool {
        match failure {
            Failure::Eof => self == eof(),
            Failure::Encoding(why) => self matches Error::Encoding(e) && e@ == why,
        }
    }
}

/// The bytes that lie at offset `at` of the file `data` behind their length,
/// which is a number of four bytes.
pub open spec fn run_at(data: Seq<u8>, at: int) -> Option<Seq<u8>> {
    match u32_at(data, at) {
        Some(len) => bytes_at(data, at + 4, len as int),
        None => None,
    }
}

/// The bytes that lie at offset `at` of the file `data` behind their length,
/// which is a number of one byte.
pub open spec fn short_run_at(data: Seq<u8>, at: int) -> Option<Seq<u8>> {
    match u8_at(data, at) {
        Some(len) => bytes_at(data, at + 1, len as int),
        None => None,
    }
}

/// The text that lies at offset `at` of the file `data`: its length in
/// bytes, as a number of four bytes, and then its bytes in the encoding
/// named.
pub open spec fn string_at(data: Seq<u8>, at: int, encoding: Seq<char>, trap: DecoderTrap)
    -> core::result::Result<Seq<char>, Failure> {
    match run_at(data, at) {
        None => Err(Failure::Eof),
        Some(bytes) => match text_of(encoding, trap, bytes) {
            Ok(text) => Ok(text),
            Err(why) => Err(Failure::Encoding(why)),
        },
    }
}

/// The `count` texts of a localized string that lie one after the other from
/// offset `at` of the file `data` on, each with the number of its key before
/// it.
pub open spec fn substrings_at(
    data: Seq<u8>,
    at: int,
    count: nat,
    encoding: Seq<char>,
    trap: DecoderTrap,
) -> core::result::Result<Seq<(u32, Seq<char>)>, Failure>
    decreases count,
{
    if count == 0 {
        Ok(Seq::empty())
    } else {
        match u32_at(data, at) {
            None => Err(Failure::Eof),
            Some(key) => match string_at(data, at + 4, encoding, trap) {
                Err(failure) => Err(failure),
                Ok(text) => match substrings_at(
                    data,
                    at + 8 + u32_at(data, at + 4)->0,
                    (count - 1) as nat,
                    encoding,
                    trap,
                ) {
                    Err(failure) => Err(failure),
                    Ok(rest) => Ok(seq![(key, text)] + rest),
                },
            },
        }
    }
}

/// The localized string that lies at offset `at` of the file `data`: the
/// number of bytes that follow, which is not looked at; the string
/// reference; the number of texts; and the texts.
pub open spec fn loc_string_at(data: Seq<u8>, at: int, encoding: Seq<char>, trap: DecoderTrap)
    -> core::result::Result<(u32, Seq<(u32, Seq<char>)>), Failure> {
    if bytes_at(data, at, 12) is None {
        Err(Failure::Eof)
    } else {
        match substrings_at(
            data,
            at + 12,
            u32_at(data, at + 8)->0 as nat,
            encoding,
            trap,
        ) {
            Err(failure) => Err(failure),
            Ok(strings) => Ok((u32_at(data, at + 4)->0, strings)),
        }
    }
}

impl LocString {
    /// The string reference and the texts with the numbers of their keys.
    pub open spec fn content(self) -> (u32, Seq<(u32, Seq<char>)>) {
        (self.str_ref.0, substrings_content(self.strings@))
    }
}

/// The texts of `strings` with the numbers of their keys.
pub open spec fn substrings_content(strings: Seq<SubString>) -> Seq<(u32, Seq<char>)> {
    Seq::new(strings.len(), |i: int| (strings[i].key.0, strings[i].string@))
}

/// A parser of a GFF file that is held in memory.
///
/// `next_token` gives the tokens of the file one after the other. The
/// `read_*` functions read a value whose place a token has given.
pub struct Parser {
    /// The file.
    reader: Source,
    /// The header of the file, which says where its sections lie.
    header: Header,
    /// The label of the encoding of the texts of the file.
    encoding: String,
    /// What to do with bytes that are no text in that encoding.
    trap: DecoderTrap,
    /// What to read next.
    state: State,
}

impl Parser {
    /// The bytes of the file.
    pub closed spec fn spec_data(&self) -> Seq<u8> {
        self.reader.data@
    }

    /// The read position in the file.
    pub closed spec fn spec_position(&self) -> u64 {
        self.reader.pos
    }

    /// The header of the file.
    pub closed spec fn spec_header(&self) -> Header {
        self.header
    }

    /// The label of the encoding of the texts of the file.
    pub closed spec fn spec_encoding(&self) -> Seq<char> {
        self.encoding@
    }

    /// What is done with bytes that are no text.
    pub closed spec fn spec_trap(&self) -> DecoderTrap {
        self.trap
    }

    /// What the parser reads next.
    pub closed spec fn spec_state(&self) -> State {
        self.state
    }

    /// Whether the parser is in a state that it can be in.
    pub closed spec fn wf(&self) -> bool {
        self.state.wf()
    }

    /// A parser that is in a state that it can be in is in a sound state.
    pub proof fn lemma_wf(&self)
        ensures
            self.wf() == self.spec_state().wf(),
    {
    }

    /// Whether `other` is a parser of the same file with the same settings.
    pub open spec fn same_file(&self, other: &Parser) -> bool {
        &&& other.spec_data() == self.spec_data()
        &&& other.spec_header() == self.spec_header()
        &&& other.spec_encoding() == self.spec_encoding()
        &&& other.spec_trap() == self.spec_trap()
    }

    /// Whether `other` is a parser of the same file in the same state. The
    /// read position may be another.
    pub open spec fn same_place(&self, other: &Parser) -> bool {
        self.same_file(other) && other.spec_state() == self.spec_state() && other.wf() == self.wf()
    }

    /// A parser of the file that `reader` holds, whose texts are UTF-8;
    /// bytes that are no UTF-8 make the text that holds them unreadable.
    /// Reads the header from the read position of `reader`.
    pub fn new(reader: Source) -> (r: Result<Parser>)
        ensures
            match r {
                Ok(parser) => parser.starts(reader, "utf-8"@, DecoderTrap::Strict),
                Err(e) => reader.ahead(56) is None && e == eof(),
            },
    {
        Parser::with_encoding(reader, default_encoding(), DecoderTrap::Strict)
    }

    /// Whether this is the parser that was just made for the file that
    /// `reader` holds, with the settings given.
    pub open spec fn starts(&self, reader: Source, encoding: Seq<char>, trap: DecoderTrap) -> bool {
        &&& self.wf()
        &&& self.spec_data() == reader.data@
        &&& reader.ahead(56) == Some(self.spec_header().bytes())
        &&& self.spec_header().signature.canonical()
        &&& self.spec_position() == reader.pos + 56
        &&& self.spec_encoding() == encoding
        &&& self.spec_trap() == trap
        &&& self.spec_state() == State::Start(
            states::ReadStruct {
                index: crate::index::StructIndex(0),
                state: Box::new(State::Finish),
                data: states::Root,
            },
        )
    }

    /// A parser of the file that `reader` holds, whose texts are in the
    /// encoding that the label `encoding` names. Reads the header from the
    /// read position of `reader`. A label that names no encoding shows when
    /// a text is read.
    pub fn with_encoding(reader: Source, encoding: &str, trap: DecoderTrap) -> (r: Result<Parser>)
        ensures
            match r {
                Ok(parser) => parser.starts(reader, encoding@, trap),
                Err(e) => reader.ahead(56) is None && e == eof(),
            },
    {
        let mut reader = reader;
        let header = Header::read(&mut reader)?;
        Ok(Parser { header, reader, encoding: encoding.to_owned(), trap, state: State::default() })
    }

    /// The header of the file.
    pub fn header(&self) -> (header: &Header)
        ensures
            *header == self.spec_header(),
    {
        &self.header
    }

    /// The type of the field with the number `index`, where the file holds
    /// the record of that field.
    fn field_tag(&self, index: u32) -> (r: Option<u32>)
        ensures
            r == match states::field_at(self.spec_data(), self.spec_header(), FieldIndex(index)) {
                Some((tag, _, _)) => Some(tag),
                None => None,
            },
    {
        let at: u64 = FieldIndex(index).offset(&self.header);
        let len: usize = self.reader.data.len();
        if at > len as u64 {
            return None;
        }
        let from: usize = at as usize;
        if len - from < 12 {
            return None;
        }
        Some(read_u32(slice_subrange(self.reader.data.as_slice(), from, from + 4)))
    }

    /// The number of lists of the file: that of its fields whose type is a
    /// list.
    pub fn list_count(&self) -> (n: u32)
        ensures
            n == reach::list_count(self.spec_data(), self.spec_header()),
    {
        let mut n: u32 = 0;
        let mut i: u32 = 0;
        while i < self.header.fields.count
            invariant
                i <= self.header.fields.count,
                n <= i,
                n == reach::list_fields(self.spec_data(), self.spec_header(), i as nat),
            decreases self.header.fields.count - i,
        {
            if let Some(tag) = self.field_tag(i) {
                if tag == states::LIST_TAG {
                    n = n + 1;
                }
            }
            i = i + 1;
        }
        n
    }

    /// The least number of tokens that the file is taken to hold: two for
    /// each of its structs and lists, or one for each of its fields,
    /// whichever is more. The parser gives that many tokens at least where
    /// each struct and each field of the file stands somewhere below the
    /// struct at the top; a record that stands nowhere is counted here and
    /// never read.
    pub fn token_count(&self) -> (n: u64)
        ensures
            n == self.spec_header().spec_token_count(
                reach::list_count(self.spec_data(), self.spec_header()),
            ),
    {
        self.header.token_count(self.list_count())
    }

    /// Whether the file was read to its end.
    pub fn is_finished(&self) -> (b: bool)
        ensures
            b == (self.spec_state() is Finish),
    {
        matches!(self.state, State::Finish)
    }

    /// The next token of the file. At the end of the file this is the error
    /// `ParsingFinished`. After an error the parser is in the state in which
    /// it was before. Where the token closes a struct or a list, nothing is
    /// read and the read position stays.
    pub fn next_token(&mut self) -> (r: Result<Token>)
        ensures
            old(self).wf() ==> final(self).wf(),
            old(self).same_file(final(self)),
            old(self).spec_state().reads_nothing() ==> final(self).spec_position() == old(
                self,
            ).spec_position(),
            match old(self).spec_state().step(old(self).spec_data(), old(self).spec_header()) {
                Ok((token, next)) => r == Ok::<Token, Error>(token) && final(self).spec_state()
                    == next,
                Err(e) => r == Err::<Token, Error>(e) && final(self).spec_state() == old(self).spec_state(),
            },
    {
        proof {
            if self.state.wf() {
                grammar::lemma_step_follows_grammar(self.state, self.reader.data@, self.header);
            }
        }
        let (token, next) = self.state.duplicate().next(&mut self.reader, &self.header)?;
        self.state = next;
        Ok(token)
    }

    /// The next token of the file, or nothing where the file was read to its
    /// end, however often this is asked.
    pub fn next(&mut self) -> (r: Option<Result<Token>>)
        ensures
            old(self).wf() ==> final(self).wf(),
            old(self).same_file(final(self)),
            match old(self).spec_state() {
                State::Finish => r is None && final(self).spec_state() is Finish,
                state => match state.step(old(self).spec_data(), old(self).spec_header()) {
                    Ok((token, next)) => r == Some(Ok::<Token, Error>(token)) && final(self).spec_state() == next,
                    Err(e) => r == Some(Err::<Token, Error>(e)) && final(self).spec_state()
                        == state,
                },
            },
    {
        if self.is_finished() {
            return None;
        }
        Some(self.next_token())
    }

    /// Passes over all that `token` has opened, where `token` is the one
    /// that `next_token` gave last: the next token is then the one behind
    /// the token that closes it. After a token that opens nothing, nothing
    /// is passed over.
    pub fn skip_next(&mut self, token: Token)
        ensures
            old(self).wf() ==> final(self).wf(),
            old(self).same_file(final(self)),
            final(self).spec_position() == old(self).spec_position(),
            final(self).spec_state() == old(self).spec_state().spec_skip(token),
    {
        proof {
            if self.state.wf() {
                grammar::lemma_close(self.state);
            }
        }
        self.state = self.state.duplicate().skip(token);
    }

    /// Reads the label with the number `index`. The read position stays
    /// where it was.
    pub fn read_label(&mut self, index: LabelIndex) -> (r: Result<Label>)
        ensures
            old(self).same_place(final(self)),
            final(self).spec_position() == old(self).spec_position(),
            match bytes_at(
                old(self).spec_data(),
                index.spec_offset(&old(self).spec_header()),
                16,
            ) {
                Some(bytes) => r matches Ok(label) && label.0@ == bytes,
                None => r == Err::<Label, Error>(eof()),
            },
    {
        let old = self.offset();
        self.seek(index);
        let label = self.reader.read_array16();
        self.reader.seek(old);
        match label {
            Ok(label) => Ok(Label::from(label)),
            Err(e) => Err(e),
        }
    }

    /// Reads the number of 8 bytes at the place `index`.
    pub fn read_u64(&mut self, index: U64Index) -> (r: Result<u64>)
        ensures
            old(self).same_place(final(self)),
            match u64_at(old(self).spec_data(), index.spec_offset(&old(self).spec_header())) {
                Some(v) => r == Ok::<u64, Error>(v),
                None => r == Err::<u64, Error>(eof()),
            },
    {
        self.seek(index);
        self.reader.read_u64()
    }

    /// Reads the signed number of 8 bytes at the place `index`.
    pub fn read_i64(&mut self, index: I64Index) -> (r: Result<i64>)
        ensures
            old(self).same_place(final(self)),
            match u64_at(old(self).spec_data(), index.spec_offset(&old(self).spec_header())) {
                Some(v) => r == Ok::<i64, Error>(v as i64),
                None => r == Err::<i64, Error>(eof()),
            },
    {
        self.seek(index);
        let v = self.reader.read_u64()?;
        Ok(v as i64)
    }

    /// Reads the bits of the floating-point number of 8 bytes at the place
    /// `index`.
    pub fn read_f64(&mut self, index: F64Index) -> (r: Result<u64>)
        ensures
            old(self).same_place(final(self)),
            match u64_at(old(self).spec_data(), index.spec_offset(&old(self).spec_header())) {
                Some(v) => r == Ok::<u64, Error>(v),
                None => r == Err::<u64, Error>(eof()),
            },
    {
        self.seek(index);
        self.reader.read_u64()
    }

    /// Reads the text at the place `index`: four bytes of length, then the
    /// bytes of the text, which are read in the encoding of the parser.
    pub fn read_string(&mut self, index: StringIndex) -> (r: Result<String>)
        ensures
            old(self).same_place(final(self)),
            match string_at(
                old(self).spec_data(),
                index.spec_offset(&old(self).spec_header()),
                old(self).spec_encoding(),
                old(self).spec_trap(),
            ) {
                Ok(text) => r matches Ok(s) && s@ == text,
                Err(failure) => r matches Err(e) && e.tells(failure),
            },
    {
        self.seek(index);
        self.read_string_impl()
    }

    /// Reads the name of a resource at the place `index`: one byte of
    /// length, then the bytes of the name.
    pub fn read_resref(&mut self, index: ResRefIndex) -> (r: Result<ResRef>)
        ensures
            old(self).same_place(final(self)),
            match short_run_at(old(self).spec_data(), index.spec_offset(&old(self).spec_header())) {
                Some(bytes) => r matches Ok(name) && name.bytes() == bytes,
                None => r == Err::<ResRef, Error>(eof()),
            },
    {
        self.seek(index);
        let size = self.reader.read_u8()? as usize;
        let bytes = self.reader.read_exact(size)?;
        Ok(ResRef(bytes))
    }

    /// Reads the localized string at the place `index`.
    pub fn read_loc_string(&mut self, index: LocStringIndex) -> (r: Result<LocString>)
        ensures
            old(self).same_place(final(self)),
            match loc_string_at(
                old(self).spec_data(),
                index.spec_offset(&old(self).spec_header()),
                old(self).spec_encoding(),
                old(self).spec_trap(),
            ) {
                Ok(content) => r matches Ok(s) && s.content() == content,
                Err(failure) => r matches Err(e) && e.tells(failure),
            },
    {
        self.seek(index);
        if !self.reader.has(12) {
            return Err(Error::Io(crate::error::IoError::UnexpectedEof));
        }
        let ghost data = self.reader.data@;
        let ghost at = self.reader.pos as int;
        let ghost encoding = self.encoding@;
        let ghost trap = self.trap;
        let _total_size = self.read_u32()?;
        let str_ref = StrRef(self.read_u32()?);
        let count = self.read_u32()?;

        let mut strings: Vec<SubString> = Vec::new();
        let mut i: u32 = 0;
        while i < count
            invariant
                i <= count,
                self.reader.data@ == data,
                self.encoding@ == encoding,
                self.trap == trap,
                old(self).same_place(self),
                data == old(self).spec_data(),
                encoding == old(self).spec_encoding(),
                trap == old(self).spec_trap(),
                at == index.spec_offset(&old(self).spec_header()),
                bytes_at(data, at, 12) is Some,
                u32_at(data, at + 8) == Some(count),
                substrings_at(data, at + 12, count as nat, encoding, trap) == prepend(
                    substrings_content(strings@),
                    substrings_at(
                        data,
                        self.reader.pos as int,
                        (count - i) as nat,
                        encoding,
                        trap,
                    ),
                ),
            decreases count - i,
        {
            let ghost before = substrings_content(strings@);
            let ghost here = self.reader.pos as int;
            proof {
                lemma_substrings_at(data, here, (count - i) as nat, encoding, trap);
            }
            let string = self.read_substring()?;
            strings.push(string);
            i += 1;
            proof {
                let after = substrings_content(strings@);
                let last = (string.key.0, string.string@);
                assert(after =~= before.push(last));
                let rest = substrings_at(
                    data,
                    self.reader.pos as int,
                    (count - i) as nat,
                    encoding,
                    trap,
                );
                match rest {
                    Ok(more) => {
                        assert(before + (seq![last] + more) =~= after + more);
                    },
                    Err(_) => {},
                }
            }
        }
        assert(substrings_content(strings@) + Seq::<(u32, Seq<char>)>::empty()
            =~= substrings_content(strings@));
        Ok(LocString { str_ref, strings })
    }

    /// Reads the bytes at the place `index`: four bytes of length, then the
    /// bytes.
    pub fn read_byte_buf(&mut self, index: BinaryIndex) -> (r: Result<Vec<u8>>)
        ensures
            old(self).same_place(final(self)),
            match run_at(old(self).spec_data(), index.spec_offset(&old(self).spec_header())) {
                Some(bytes) => r matches Ok(v) && v@ == bytes,
                None => r == Err::<Vec<u8>, Error>(eof()),
            },
    {
        self.seek(index);
        self.read_bytes()
    }

    /// Whether `r` is what reading the value `value` in full gives.
    pub open spec fn reads(&self, value: SimpleValueRef, r: Result<SimpleValue>) -> bool {
        let data = self.spec_data();
        let header = self.spec_header();
        match value {
            SimpleValueRef::Byte(v) => r == Ok::<SimpleValue, Error>(SimpleValue::Byte(v)),
            SimpleValueRef::Char(v) => r == Ok::<SimpleValue, Error>(SimpleValue::Char(v)),
            SimpleValueRef::Word(v) => r == Ok::<SimpleValue, Error>(SimpleValue::Word(v)),
            SimpleValueRef::Short(v) => r == Ok::<SimpleValue, Error>(SimpleValue::Short(v)),
            SimpleValueRef::Dword(v) => r == Ok::<SimpleValue, Error>(SimpleValue::Dword(v)),
            SimpleValueRef::Int(v) => r == Ok::<SimpleValue, Error>(SimpleValue::Int(v)),
            SimpleValueRef::Float(v) => r == Ok::<SimpleValue, Error>(SimpleValue::Float(v)),
            SimpleValueRef::Dword64(i) => match u64_at(data, i.spec_offset(&header)) {
                Some(v) => r == Ok::<SimpleValue, Error>(SimpleValue::Dword64(v)),
                None => r == Err::<SimpleValue, Error>(eof()),
            },
            SimpleValueRef::Int64(i) => match u64_at(data, i.spec_offset(&header)) {
                Some(v) => r == Ok::<SimpleValue, Error>(SimpleValue::Int64(v as i64)),
                None => r == Err::<SimpleValue, Error>(eof()),
            },
            SimpleValueRef::Double(i) => match u64_at(data, i.spec_offset(&header)) {
                Some(v) => r == Ok::<SimpleValue, Error>(SimpleValue::Double(v)),
                None => r == Err::<SimpleValue, Error>(eof()),
            },
            SimpleValueRef::String(i) => match string_at(
                data,
                i.spec_offset(&header),
                self.spec_encoding(),
                self.spec_trap(),
            ) {
                Ok(text) => r matches Ok(SimpleValue::String(s)) && s@ == text,
                Err(failure) => r matches Err(e) && e.tells(failure),
            },
            SimpleValueRef::ResRef(i) => match short_run_at(data, i.spec_offset(&header)) {
                Some(bytes) => r matches Ok(SimpleValue::ResRef(name)) && name.bytes() == bytes,
                None => r == Err::<SimpleValue, Error>(eof()),
            },
            SimpleValueRef::LocString(i) => match loc_string_at(
                data,
                i.spec_offset(&header),
                self.spec_encoding(),
                self.spec_trap(),
            ) {
                Ok(content) => r matches Ok(SimpleValue::LocString(s)) && s.content() == content,
                Err(failure) => r matches Err(e) && e.tells(failure),
            },
            SimpleValueRef::Void(i) => match run_at(data, i.spec_offset(&header)) {
                Some(bytes) => r matches Ok(SimpleValue::Void(v)) && v@ == bytes,
                None => r == Err::<SimpleValue, Error>(eof()),
            },
        }
    }

    /// Reads the value `value` in full: a value that a token holds is given
    /// as it is, and one whose place the token holds is read from there.
    ///
    /// This moves the read position, which does no harm: the parser finds
    /// its place again for the next token.
    pub fn read_value(&mut self, value: SimpleValueRef) -> (r: Result<SimpleValue>)
        ensures
            old(self).same_place(final(self)),
            old(self).reads(value, r),
    {
        Ok(
            match value {
                SimpleValueRef::Byte(val) => SimpleValue::Byte(val),
                SimpleValueRef::Char(val) => SimpleValue::Char(val),
                SimpleValueRef::Word(val) => SimpleValue::Word(val),
                SimpleValueRef::Short(val) => SimpleValue::Short(val),
                SimpleValueRef::Dword(val) => SimpleValue::Dword(val),
                SimpleValueRef::Int(val) => SimpleValue::Int(val),
                SimpleValueRef::Dword64(val) => SimpleValue::Dword64(self.read_u64(val)?),
                SimpleValueRef::Int64(val) => SimpleValue::Int64(self.read_i64(val)?),
                SimpleValueRef::Float(val) => SimpleValue::Float(val),
                SimpleValueRef::Double(val) => SimpleValue::Double(self.read_f64(val)?),
                SimpleValueRef::String(val) => SimpleValue::String(self.read_string(val)?),
                SimpleValueRef::ResRef(val) => SimpleValue::ResRef(self.read_resref(val)?),
                SimpleValueRef::LocString(val) => SimpleValue::LocString(
                    self.read_loc_string(val)?,
                ),
                SimpleValueRef::Void(val) => SimpleValue::Void(self.read_byte_buf(val)?),
            },
        )
    }

    /// Moves the read position to the place that `index` points to.
    fn seek<I: Index>(&mut self, index: I)
        ensures
            old(self).same_place(final(self)),
            final(self).reader.data == old(self).reader.data,
            final(self).header == old(self).header,
            final(self).encoding == old(self).encoding,
            final(self).trap == old(self).trap,
            final(self).state == old(self).state,
            final(self).reader.pos == index.spec_offset(&old(self).header),
    {
        let offset = index.offset(&self.header);
        self.reader.seek(offset);
    }

    /// The read position.
    fn offset(&self) -> (pos: u64)
        ensures
            pos == self.reader.pos,
    {
        self.reader.position()
    }

    /// Reads a number of four bytes at the read position.
    fn read_u32(&mut self) -> (r: Result<u32>)
        ensures
            final(self).header == old(self).header,
            final(self).encoding == old(self).encoding,
            final(self).trap == old(self).trap,
            final(self).state == old(self).state,
            match r {
                Ok(v) => u32_at(old(self).reader.data@, old(self).reader.pos as int) == Some(v)
                    && old(self).reader.advanced(&final(self).reader, 4),
                Err(e) => old(self).reader.short(&final(self).reader, e, 4),
            },
    {
        self.reader.read_u32()
    }

    /// Reads four bytes of length at the read position, and then that many
    /// bytes.
    fn read_bytes(&mut self) -> (r: Result<Vec<u8>>)
        ensures
            final(self).header == old(self).header,
            final(self).encoding == old(self).encoding,
            final(self).trap == old(self).trap,
            final(self).state == old(self).state,
            final(self).reader.data == old(self).reader.data,
            match run_at(old(self).reader.data@, old(self).reader.pos as int) {
                Some(bytes) => r matches Ok(v) && v@ == bytes && final(self).reader.pos == old(self).reader.pos + 4 + bytes.len(),
                None => r == Err::<Vec<u8>, Error>(eof()),
            },
    {
        let size = self.read_u32()? as usize;
        self.reader.read_exact(size)
    }

    /// Reads four bytes of length at the read position, and then that many
    /// bytes as text in the encoding of the parser.
    fn read_string_impl(&mut self) -> (r: Result<String>)
        ensures
            final(self).header == old(self).header,
            final(self).encoding == old(self).encoding,
            final(self).trap == old(self).trap,
            final(self).state == old(self).state,
            final(self).reader.data == old(self).reader.data,
            match string_at(
                old(self).reader.data@,
                old(self).reader.pos as int,
                old(self).encoding@,
                old(self).trap,
            ) {
                Ok(text) => r matches Ok(s) && s@ == text && final(self).reader.pos == old(self).reader.pos + 4 + u32_at(old(self).reader.data@, old(self).reader.pos as int)->0,
                Err(failure) => r matches Err(e) && e.tells(failure),
            },
    {
        let bytes = self.read_bytes()?;
        decode_text(self.encoding.as_str(), self.trap, bytes.as_slice())
    }

    /// Reads one text of a localized string at the read position: the number
    /// of its key, and the text.
    fn read_substring(&mut self) -> (r: Result<SubString>)
        ensures
            final(self).header == old(self).header,
            final(self).encoding == old(self).encoding,
            final(self).trap == old(self).trap,
            final(self).state == old(self).state,
            final(self).reader.data == old(self).reader.data,
            match one_substring_at(
                old(self).reader.data@,
                old(self).reader.pos as int,
                old(self).encoding@,
                old(self).trap,
            ) {
                Ok((key, text)) => r matches Ok(s) && s.key.0 == key && s.string@ == text
                    && final(self).reader.pos == old(self).reader.pos + 8 + u32_at(
                    old(self).reader.data@,
                    old(self).reader.pos + 4,
                )->0,
                Err(failure) => r matches Err(e) && e.tells(failure),
            },
    {
        let key = StringKey(self.read_u32()?);
        let string = self.read_string_impl()?;
        Ok(SubString { key, string })
    }
}

/// One text of a localized string that lies at offset `at` of the file
/// `data`, with the number of its key before it.
pub open spec fn one_substring_at(data: Seq<u8>, at: int, encoding: Seq<char>, trap: DecoderTrap)
    -> core::result::Result<(u32, Seq<char>), Failure> {
    match u32_at(data, at) {
        None => Err(Failure::Eof),
        Some(key) => match string_at(data, at + 4, encoding, trap) {
            Err(failure) => Err(failure),
            Ok(text) => Ok((key, text)),
        },
    }
}

/// The texts of a localized string are the first one and, behind it, the
/// others.
pub proof fn lemma_substrings_at(
    data: Seq<u8>,
    at: int,
    count: nat,
    encoding: Seq<char>,
    trap: DecoderTrap,
)
    requires
        count > 0,
    ensures
        substrings_at(data, at, count, encoding, trap) == match one_substring_at(
            data,
            at,
            encoding,
            trap,
        ) {
            Err(failure) => Err(failure),
            Ok(first) => prepend(
                seq![first],
                substrings_at(
                    data,
                    at + 8 + u32_at(data, at + 4)->0,
                    (count - 1) as nat,
                    encoding,
                    trap,
                ),
            ),
        },
{
}

/// The texts `done` with those of `rest` behind them, where `rest` holds
/// texts.
pub open spec fn prepend(
    done: Seq<(u32, Seq<char>)>,
    rest: core::result::Result<Seq<(u32, Seq<char>)>, Failure>,
) -> core::result::Result<Seq<(u32, Seq<char>)>, Failure> {
    match rest {
        Ok(more) => Ok(done + more),
        Err(failure) => Err(failure),
    }
}

} // verus!
