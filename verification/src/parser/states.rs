//! The states of the pull parser.
//!
//! A state knows what to read next and which state follows when that has
//! been read. The states that enter a struct or a list hold the state to
//! come back to when its end is reached, so that a state is a chain of all
//! that is still open.

use crate::error::{eof, Error, IoError, Result};
use crate::header::Header;
use crate::index::{FieldIndex, FieldIndicesIndex, Index, LabelIndex, ListIndicesIndex, StructIndex};
use crate::parser::{Tag, Token};
use crate::raw;
use crate::source::{bytes_at, u32_at, Source};
use crate::value::SimpleValueRef;
use vstd::prelude::*;

verus! {

/// The code of the field type `Struct`.
pub const STRUCT_TAG: u32 = 14;

/// The code of the field type `List`.
pub const LIST_TAG: u32 = 15;

/// The struct record with the number `index` of the file `data`.
pub open spec fn struct_at(data: Seq<u8>, header: Header, index: StructIndex) -> Option<
    raw::Struct,
> {
    match bytes_at(data, index.spec_offset(&header), 12) {
        Some(b) => Some(raw::Struct::parse(b)),
        None => None,
    }
}

/// The three numbers of the field record with the number `index` of the file
/// `data`: the code of the type, the number of the label, and the data.
pub open spec fn field_at(data: Seq<u8>, header: Header, index: FieldIndex) -> Option<
    (u32, u32, u32),
> {
    let at = index.spec_offset(&header);
    if bytes_at(data, at, 12) is Some {
        Some((u32_at(data, at)->0, u32_at(data, at + 4)->0, u32_at(data, at + 8)->0))
    } else {
        None
    }
}

/// The length of the list that lies `list` bytes into the section of the
/// struct lists of the file `data`.
pub open spec fn list_len_at(data: Seq<u8>, header: Header, list: u32) -> Option<u32> {
    u32_at(data, header.list_indices.offset + list)
}

/// The states of the parser.
#[derive(Debug, PartialEq, Eq)]
pub enum State {
    /// Nothing was read yet. The step from here gives `RootBegin`.
    Start(ReadStruct<Root>),
    /// The record of a field is read next. The step from here gives `Label`.
    ReadLabel(ReadLabel),
    /// The value of a field is read next. The step from here gives `Value`,
    /// `StructBegin` or `ListBegin`.
    ReadField(ReadField),
    /// The fields of a struct with several fields are read, one after the
    /// other.
    ReadFields(ReadFields),
    /// The items of a list are read, one after the other. The step from here
    /// gives `ItemBegin`, or `ListEnd` when no item is left.
    ReadItems(ReadItems),
    /// All fields of the struct at the top were read. The step from here
    /// gives `RootEnd`.
    EndRoot(EndStruct<Root>),
    /// All fields of an item of a list were read. The step from here gives
    /// `ItemEnd`.
    EndItem(EndStruct<Item>),
    /// All fields of a struct that is the value of a field were read. The
    /// step from here gives `StructEnd`.
    EndStruct(EndStruct<Struct>),
    /// The file was read to its end. No step leads on from here.
    Finish,
}

/// What tells the three places of a struct apart: at the top of the file, as
/// the value of a field, as an item of a list. Each has its own tokens.
pub trait TokenEmitter: Sized {
    /// The token that opens the struct.
    spec fn spec_begin(&self, tag: Tag, count: u32) -> Token;

    /// The token that closes the struct.
    spec fn spec_end(&self) -> Token;

    /// The state in which the fields of the struct have all been read, and
    /// from which the parser goes on to `state`.
    spec fn spec_next(self, state: Box<State>) -> State;

    /// The token that opens the struct, with its type tag and the number of
    /// its fields.
    fn begin(&self, tag: Tag, count: u32) -> (token: Token)
        ensures
            token == self.spec_begin(tag, count),
    ;

    /// The token that closes the struct.
    fn end(&self) -> (token: Token)
        ensures
            token == self.spec_end(),
    ;

    /// The state in which the fields of the struct have all been read, and
    /// from which the parser goes on to `state`.
    fn next(self, state: Box<State>) -> (end: State)
        ensures
            end == self.spec_next(state),
    ;
}

/// The struct at the top of the file, which stands for the whole of it.
#[derive(Debug, Clone, Copy, PartialEq, Eq)]
pub struct Root;

impl TokenEmitter for Root {
    open spec fn spec_begin(&self, tag: Tag, count: u32) -> Token {
        Token::RootBegin { tag, count }
    }

    open spec fn spec_end(&self) -> Token {
        Token::RootEnd
    }

    open spec fn spec_next(self, state: Box<State>) -> State {
        State::EndRoot(EndStruct { state, data: self })
    }

    fn begin(&self, tag: Tag, count: u32) -> (token: Token) {
        Token::RootBegin { tag, count }
    }

    fn end(&self) -> (token: Token) {
        Token::RootEnd
    }

    fn next(self, state: Box<State>) -> (end: State) {
        State::EndRoot(EndStruct { state, data: self })
    }
}

/// A struct that is the value of a field of another struct.
#[derive(Debug, Clone, Copy, PartialEq, Eq)]
pub struct Struct;

impl TokenEmitter for Struct {
    open spec fn spec_begin(&self, tag: Tag, count: u32) -> Token {
        Token::StructBegin { tag, count }
    }

    open spec fn spec_end(&self) -> Token {
        Token::StructEnd
    }

    open spec fn spec_next(self, state: Box<State>) -> State {
        State::EndStruct(EndStruct { state, data: self })
    }

    fn begin(&self, tag: Tag, count: u32) -> (token: Token) {
        Token::StructBegin { tag, count }
    }

    fn end(&self) -> (token: Token) {
        Token::StructEnd
    }

    fn next(self, state: Box<State>) -> (end: State) {
        State::EndStruct(EndStruct { state, data: self })
    }
}

/// A struct that is an item of a list.
#[derive(Debug, Clone, Copy, PartialEq, Eq)]
pub struct Item {
    /// The number of the item in its list, counted from 0.
    pub index: u32,
}

impl TokenEmitter for Item {
    open spec fn spec_begin(&self, tag: Tag, count: u32) -> Token {
        Token::ItemBegin { tag, count, index: self.index }
    }

    open spec fn spec_end(&self) -> Token {
        Token::ItemEnd
    }

    open spec fn spec_next(self, state: Box<State>) -> State {
        State::EndItem(EndStruct { state, data: self })
    }

    fn begin(&self, tag: Tag, count: u32) -> (token: Token) {
        Token::ItemBegin { tag, count, index: self.index }
    }

    fn end(&self) -> (token: Token) {
        Token::ItemEnd
    }

    fn next(self, state: Box<State>) -> (end: State) {
        State::EndItem(EndStruct { state, data: self })
    }
}

/// The state in which the record of a struct is read next.
#[derive(Debug, PartialEq, Eq)]
pub struct ReadStruct<Data> {
    /// The number of the struct to read.
    pub index: StructIndex,
    /// The state to go on to when the struct has ended.
    pub state: Box<State>,
    /// The place of the struct, which gives its tokens.
    pub data: Data,
}

/// The state in which all fields of a struct have been read.
#[derive(Debug, PartialEq, Eq)]
pub struct EndStruct<Data> {
    /// The state to go on to when the struct has ended.
    pub state: Box<State>,
    /// The place of the struct, which gives its tokens.
    pub data: Data,
}

/// The state in which the record of a field is read next.
#[derive(Debug, PartialEq, Eq)]
pub struct ReadLabel {
    /// The number of the field to read.
    pub index: FieldIndex,
    /// The state to go on to when the value of the field has been read.
    pub state: Box<State>,
}

/// The state in which the value of a field is made out of its record.
#[derive(Debug, PartialEq, Eq)]
pub struct ReadField {
    /// The code of the type of the field.
    pub tag: u32,
    /// The four data bytes of the field record, as one number.
    pub data: u32,
    /// The state to go on to when the value of the field has been read.
    pub state: Box<State>,
}

/// The state in which the fields of a struct with several fields are read.
#[derive(Debug, PartialEq, Eq)]
pub struct ReadFields {
    /// The place, in the field list of the struct, of the next field.
    pub index: FieldIndicesIndex,
    /// The number of fields that are still to read.
    pub count: u32,
    /// The state to go on to when no field is left.
    pub state: Box<State>,
}

/// The state in which the items of a list are read.
#[derive(Debug, PartialEq, Eq)]
pub struct ReadItems {
    /// The place, in the struct list of the list, of the next item.
    pub index: ListIndicesIndex,
    /// The number of items that are still to read.
    pub count: u32,
    /// The state to go on to when the list has ended.
    pub state: Box<State>,
}

impl State {
    /// Whether this is a state in which all fields of a struct have been
    /// read.
    pub open spec fn is_end(self) -> bool {
        self is EndRoot || self is EndStruct || self is EndItem
    }

    /// Whether this is a state between two fields of a struct, or behind the
    /// last one.
    pub open spec fn is_between_fields(self) -> bool {
        self.is_end() || self is ReadFields
    }

    /// Whether the step from this state reads nothing from the file: it
    /// closes a struct or a list of which nothing is left, or the file was
    /// read to its end.
    pub open spec fn reads_nothing(self) -> bool
        decreases self,
    {
        match self {
            State::ReadItems(s) => s.count == 0,
            State::ReadFields(s) => s.count == 0 && s.state.reads_nothing(),
            State::EndRoot(_) | State::EndStruct(_) | State::EndItem(_) | State::Finish => true,
            _ => false,
        }
    }

    /// Whether the state is one that the parser can be in: each struct and
    /// list that is open comes back to a state of the right kind, and no
    /// count runs over.
    pub open spec fn wf(self) -> bool
        decreases self,
    {
        match self {
            State::Start(s) => *s.state is Finish,
            State::ReadLabel(s) => s.state.is_between_fields() && s.state.wf(),
            State::ReadField(s) => s.state.is_between_fields() && s.state.wf(),
            State::ReadFields(s) => s.state.is_end() && s.state.wf() && s.index.1 + s.count
                <= u32::MAX,
            State::ReadItems(s) => s.state.is_between_fields() && s.state.wf() && s.index.1
                + s.count <= u32::MAX,
            State::EndRoot(s) => *s.state is Finish,
            State::EndItem(s) => *s.state is ReadItems && s.state.wf(),
            State::EndStruct(s) => s.state.is_between_fields() && s.state.wf(),
            State::Finish => true,
        }
    }

    /// The token that the parser gives in this state on the file `data`,
    /// and the state that it is in then; or the error that it ends in.
    pub open spec fn step(self, data: Seq<u8>, header: Header) -> Result<(Token, State)>
        decreases self,
    {
        match self {
            State::Start(s) => s.step(data, header),
            State::ReadLabel(s) => s.step(data, header),
            State::ReadField(s) => s.step(data, header),
            State::ReadFields(s) => {
                if s.count == 0 {
                    s.state.step(data, header)
                } else {
                    match u32_at(data, s.index.spec_offset(&header)) {
                        None => Err(eof()),
                        Some(field) => ReadLabel {
                            index: FieldIndex(field),
                            state: Box::new(
                                State::ReadFields(
                                    ReadFields {
                                        index: s.index.spec_next(),
                                        count: (s.count - 1) as u32,
                                        state: s.state,
                                    },
                                ),
                            ),
                        }.step(data, header),
                    }
                }
            },
            State::ReadItems(s) => s.step(data, header),
            State::EndRoot(s) => s.step(),
            State::EndItem(s) => s.step(),
            State::EndStruct(s) => s.step(),
            State::Finish => Err(Error::ParsingFinished),
        }
    }

    /// The state that the parser is in when the innermost struct or list
    /// that is open in this state has ended. Where none is open, this state.
    pub open spec fn spec_close(self) -> State
        decreases self,
    {
        match self {
            State::ReadLabel(s) => s.state.spec_close(),
            State::ReadField(s) => s.state.spec_close(),
            State::ReadFields(s) => s.state.spec_close(),
            State::ReadItems(s) => *s.state,
            State::EndRoot(s) => *s.state,
            State::EndItem(s) => *s.state,
            State::EndStruct(s) => *s.state,
            State::Start(_) => self,
            State::Finish => self,
        }
    }

    /// The state that the parser is in when all that `token` has opened has
    /// been passed over, where `token` is the one that led to this state.
    /// A token that opens nothing leaves the state as it is.
    pub open spec fn spec_skip(self, token: Token) -> State {
        if token.spec_is_begin() {
            self.spec_close()
        } else {
            self
        }
    }

    /// A copy of this state.
    pub fn duplicate(&self) -> (s: State)
        ensures
            s == *self,
        decreases *self,
    {
        match self {
            State::Start(s) => State::Start(
                ReadStruct { index: s.index, state: Box::new(s.state.duplicate()), data: s.data },
            ),
            State::ReadLabel(s) => State::ReadLabel(
                ReadLabel { index: s.index, state: Box::new(s.state.duplicate()) },
            ),
            State::ReadField(s) => State::ReadField(
                ReadField { tag: s.tag, data: s.data, state: Box::new(s.state.duplicate()) },
            ),
            State::ReadFields(s) => State::ReadFields(
                ReadFields {
                    index: s.index,
                    count: s.count,
                    state: Box::new(s.state.duplicate()),
                },
            ),
            State::ReadItems(s) => State::ReadItems(
                ReadItems {
                    index: s.index,
                    count: s.count,
                    state: Box::new(s.state.duplicate()),
                },
            ),
            State::EndRoot(s) => State::EndRoot(
                EndStruct { state: Box::new(s.state.duplicate()), data: s.data },
            ),
            State::EndItem(s) => State::EndItem(
                EndStruct { state: Box::new(s.state.duplicate()), data: s.data },
            ),
            State::EndStruct(s) => State::EndStruct(
                EndStruct { state: Box::new(s.state.duplicate()), data: s.data },
            ),
            State::Finish => State::Finish,
        }
    }

    /// The state that the parser is in when the innermost struct or list
    /// that is open in this state has ended.
    pub fn close(self) -> (s: State)
        ensures
            s == self.spec_close(),
        decreases self,
    {
        match self {
            State::ReadLabel(s) => (*s.state).close(),
            State::ReadField(s) => (*s.state).close(),
            State::ReadFields(s) => (*s.state).close(),
            State::ReadItems(s) => *s.state,
            State::EndRoot(s) => *s.state,
            State::EndItem(s) => *s.state,
            State::EndStruct(s) => *s.state,
            State::Start(s) => State::Start(s),
            State::Finish => State::Finish,
        }
    }

    /// Passes over all that `token` has opened, where `token` is the one
    /// that led to this state: the state that follows is the one behind the
    /// token that closes it.
    pub fn skip(self, token: Token) -> (s: State)
        ensures
            s == self.spec_skip(token),
    {
        if token.is_begin() {
            self.close()
        } else {
            self
        }
    }

    /// Reads what this state is to read from `reader`, and gives the token
    /// read and the state that follows.
    pub fn next(self, reader: &mut Source, header: &Header) -> (r: Result<(Token, State)>)
        ensures
            final(reader).data == old(reader).data,
            r == self.step(old(reader).data@, *header),
            self.reads_nothing() ==> final(reader).pos == old(reader).pos,
        decreases self,
    {
        match self {
            State::Start(state) => state.next(reader, header),
            State::ReadLabel(state) => state.next(reader, header),
            State::ReadField(state) => state.next(reader, header),
            State::ReadFields(state) => state.next(reader, header),
            State::ReadItems(state) => state.next(reader, header),
            State::EndRoot(state) => state.next(),
            State::EndStruct(state) => state.next(),
            State::EndItem(state) => state.next(),
            State::Finish => Err(Error::ParsingFinished),
        }
    }
}

impl Default for State {
    /// The state in which nothing was read yet.
    fn default() -> (s: State)
        ensures
            s == State::Start(
                ReadStruct { index: StructIndex(0), state: Box::new(State::Finish), data: Root },
            ),
            s.wf(),
    {
        State::Start(ReadStruct::<Root>::default())
    }
}

impl<Data: TokenEmitter> ReadStruct<Data> {
    /// The token that opens the struct, and the state that reads its first
    /// field, or that closes it where it has no field.
    pub open spec fn step(self, data: Seq<u8>, header: Header) -> Result<(Token, State)> {
        match struct_at(data, header, self.index) {
            None => Err(eof()),
            Some(record) => {
                let token = self.data.spec_begin(Tag(record.tag), record.fields);
                let next = self.data.spec_next(self.state);
                let state = if record.fields == 0 {
                    next
                } else if record.fields == 1 {
                    State::ReadLabel(
                        ReadLabel { index: FieldIndex(record.offset), state: Box::new(next) },
                    )
                } else {
                    State::ReadFields(
                        ReadFields {
                            index: FieldIndicesIndex(record.offset, 0),
                            count: record.fields,
                            state: Box::new(next),
                        },
                    )
                };
                Ok((token, state))
            },
        }
    }

    /// Reads the record of the struct.
    pub fn next(self, reader: &mut Source, header: &Header) -> (r: Result<(Token, State)>)
        ensures
            final(reader).data == old(reader).data,
            r == self.step(old(reader).data@, *header),
    {
        reader.seek(self.index.offset(header));
        let record = raw::Struct::read(reader)?;
        let token = self.data.begin(Tag(record.tag), record.fields);
        let next = self.data.next(self.state);
        let state = match record.fields {
            0 => next,
            1 => State::ReadLabel(
                ReadLabel { index: FieldIndex(record.offset), state: Box::new(next) },
            ),
            _ => State::ReadFields(
                ReadFields {
                    index: FieldIndicesIndex(record.offset, 0),
                    count: record.fields,
                    state: Box::new(next),
                },
            ),
        };
        Ok((token, state))
    }
}

impl Default for ReadStruct<Root> {
    /// The state that reads the struct at the top of the file, which is the
    /// first struct of the file.
    fn default() -> (s: ReadStruct<Root>)
        ensures
            s == (ReadStruct { index: StructIndex(0), state: Box::new(State::Finish), data: Root }),
    {
        ReadStruct { index: StructIndex(0), state: Box::new(State::Finish), data: Root }
    }
}

impl<Data: TokenEmitter> EndStruct<Data> {
    /// The token that closes the struct, and the state that the struct was
    /// entered from.
    pub open spec fn step(self) -> Result<(Token, State)> {
        Ok((self.data.spec_end(), *self.state))
    }

    /// Gives the token that closes the struct.
    pub fn next(self) -> (r: Result<(Token, State)>)
        ensures
            r == self.step(),
    {
        Ok((self.data.end(), *self.state))
    }
}

impl ReadLabel {
    /// The token with the label of the field, and the state that holds the
    /// type and the data of the field.
    pub open spec fn step(self, data: Seq<u8>, header: Header) -> Result<(Token, State)> {
        match field_at(data, header, self.index) {
            None => Err(eof()),
            Some((tag, label, value)) => Ok(
                (
                    Token::Label(LabelIndex(label)),
                    State::ReadField(ReadField { tag, data: value, state: self.state }),
                ),
            ),
        }
    }

    /// Reads the record of the field.
    pub fn next(self, reader: &mut Source, header: &Header) -> (r: Result<(Token, State)>)
        ensures
            final(reader).data == old(reader).data,
            r == self.step(old(reader).data@, *header),
    {
        reader.seek(self.index.offset(header));
        if !reader.has(raw::FIELD_SIZE) {
            return Err(Error::Io(IoError::UnexpectedEof));
        }
        let tag = reader.read_u32()?;
        let label = LabelIndex(reader.read_u32()?);
        let data = reader.read_u32()?;
        let token = Token::Label(label);
        let state = ReadField { tag, data, state: self.state };
        Ok((token, State::ReadField(state)))
    }
}

impl ReadField {
    /// The token that the value of the field begins with, and the state
    /// behind it: for a struct or a list the state that reads what it holds,
    /// for other values the state to go on to.
    pub open spec fn step(self, data: Seq<u8>, header: Header) -> Result<(Token, State)> {
        if self.tag == STRUCT_TAG {
            ReadStruct { index: StructIndex(self.data), state: self.state, data: Struct }.step(
                data,
                header,
            )
        } else if self.tag == LIST_TAG {
            match list_len_at(data, header, self.data) {
                None => Err(eof()),
                Some(count) => Ok(
                    (
                        Token::ListBegin(count),
                        State::ReadItems(
                            ReadItems {
                                index: ListIndicesIndex(self.data, 0),
                                count,
                                state: self.state,
                            },
                        ),
                    ),
                ),
            }
        } else {
            match SimpleValueRef::of(self.tag, self.data) {
                Ok(value) => Ok((Token::Value(value), *self.state)),
                Err(e) => Err(e),
            }
        }
    }

    /// Makes the value of the field out of its record. For a struct or a
    /// list this reads on, to its record or to its length.
    pub fn next(self, reader: &mut Source, header: &Header) -> (r: Result<(Token, State)>)
        ensures
            final(reader).data == old(reader).data,
            r == self.step(old(reader).data@, *header),
    {
        match self.tag {
            14 => {
                let next = ReadStruct::<Struct> {
                    index: StructIndex(self.data),
                    state: self.state,
                    data: Struct,
                };
                next.next(reader, header)
            },
            15 => {
                reader.seek(header.list_indices.offset as u64 + self.data as u64);
                let count = reader.read_u32()?;
                let token = Token::ListBegin(count);
                let state = ReadItems {
                    index: ListIndicesIndex(self.data, 0),
                    count,
                    state: self.state,
                };
                Ok((token, State::ReadItems(state)))
            },
            _ => {
                let value = SimpleValueRef::decode(self.tag, self.data)?;
                Ok((Token::Value(value), *self.state))
            },
        }
    }
}

impl ReadFields {
    /// Reads the number of the next field from the field list and then the
    /// record of that field; where no field is left, does what the state to
    /// go on to does.
    pub fn next(self, reader: &mut Source, header: &Header) -> (r: Result<(Token, State)>)
        ensures
            final(reader).data == old(reader).data,
            r == State::ReadFields(self).step(old(reader).data@, *header),
            State::ReadFields(self).reads_nothing() ==> final(reader).pos == old(reader).pos,
        decreases self,
    {
        if self.count == 0 {
            return (*self.state).next(reader, header);
        }
        reader.seek(self.index.offset(header));
        let field = reader.read_u32()?;
        let state = ReadLabel {
            index: FieldIndex(field),
            state: Box::new(
                State::ReadFields(
                    ReadFields { index: self.index.next(), count: self.count - 1, state: self.state },
                ),
            ),
        };
        state.next(reader, header)
    }
}

impl ReadItems {
    /// The token that opens the next item, and the state that reads its
    /// first field; where no item is left, the token that closes the list,
    /// and the state to go on to.
    pub open spec fn step(self, data: Seq<u8>, header: Header) -> Result<(Token, State)> {
        if self.count == 0 {
            Ok((Token::ListEnd, *self.state))
        } else {
            match u32_at(data, self.index.spec_offset(&header)) {
                None => Err(eof()),
                Some(item) => ReadStruct {
                    index: StructIndex(item),
                    state: Box::new(
                        State::ReadItems(
                            ReadItems {
                                index: self.index.spec_next(),
                                count: (self.count - 1) as u32,
                                state: self.state,
                            },
                        ),
                    ),
                    data: Item { index: self.index.1 },
                }.step(data, header),
            }
        }
    }

    /// Reads the number of the next item from the struct list and then the
    /// record of that struct; where no item is left, closes the list and
    /// leaves the file as it is, with its read position.
    pub fn next(self, reader: &mut Source, header: &Header) -> (r: Result<(Token, State)>)
        ensures
            final(reader).data == old(reader).data,
            r == self.step(old(reader).data@, *header),
            self.count == 0 ==> final(reader).pos == old(reader).pos,
    {
        if self.count == 0 {
            return Ok((Token::ListEnd, *self.state));
        }
        reader.seek(self.index.offset(header));
        let item = reader.read_u32()?;
        let rest = State::ReadItems(
            ReadItems { index: self.index.next(), count: self.count - 1, state: self.state },
        );
        let state = ReadStruct::<Item> {
            index: StructIndex(item),
            state: Box::new(rest),
            data: Item { index: self.index.1 },
        };
        state.next(reader, header)
    }
}

} // verus!
