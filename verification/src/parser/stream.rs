//! The token stream of a file, told in one piece.
//!
//! The parser gives the tokens of a file one by one. This module says what
//! they are when taken together: the tokens of the struct at the top, with
//! those of its fields between the token that opens it and the token that
//! closes it, and so on down to the values. It proves that the parser gives
//! exactly these tokens, and ends behind them.
//!
//! A file can hold structs that hold themselves, which have no end. So the
//! tokens are told to a depth only: of a file that nests deeper, nothing is
//! said.

use crate::header::Header;
use crate::index::{FieldIndex, FieldIndicesIndex, Index, LabelIndex, ListIndicesIndex, StructIndex};
use crate::parser::grammar::run;
use crate::parser::states::{
    field_at, list_len_at, struct_at, EndStruct, Item, ReadField, ReadFields, ReadItems,
    ReadLabel, ReadStruct, Root, State, Struct, LIST_TAG, STRUCT_TAG,
};
use crate::parser::{Tag, Token};
use crate::raw;
use crate::source::u32_at;
use crate::value::SimpleValueRef;
use vstd::prelude::*;

verus! {

/// Where a struct stands in a file.
pub enum Place {
    /// At the top of the file.
    Root,
    /// As the value of a field.
    Struct,
    /// As the item of a list with the number given.
    Item(u32),
}

impl Place {
    /// The token that opens a struct in this place.
    pub open spec fn begin(self, tag: Tag, count: u32) -> Token {
        match self {
            Place::Root => Token::RootBegin { tag, count },
            Place::Struct => Token::StructBegin { tag, count },
            Place::Item(index) => Token::ItemBegin { tag, count, index },
        }
    }

    /// The token that closes a struct in this place.
    pub open spec fn end(self) -> Token {
        match self {
            Place::Root => Token::RootEnd,
            Place::Struct => Token::StructEnd,
            Place::Item(_) => Token::ItemEnd,
        }
    }

    /// The state in which all fields of a struct in this place have been
    /// read, and from which the parser goes on to `state`.
    pub open spec fn ended(self, state: State) -> State {
        match self {
            Place::Root => State::EndRoot(EndStruct { state: Box::new(state), data: Root }),
            Place::Struct => State::EndStruct(EndStruct { state: Box::new(state), data: Struct }),
            Place::Item(index) => State::EndItem(
                EndStruct { state: Box::new(state), data: Item { index } },
            ),
        }
    }
}

/// The number of the field `j` of the struct with the record `record`: what
/// the record holds where the struct has one field, else the entry `j` of
/// its field list.
pub open spec fn field_of(data: Seq<u8>, header: Header, record: raw::Struct, j: nat) -> Option<
    u32,
> {
    if record.fields == 1 {
        Some(record.offset)
    } else {
        u32_at(data, FieldIndicesIndex(record.offset, j as u32).spec_offset(&header))
    }
}

/// The tokens of the struct with the number `index` that stands in `place`,
/// with all that it holds, where that nests no deeper than `depth`.
pub open spec fn struct_tokens(
    data: Seq<u8>,
    header: Header,
    index: StructIndex,
    place: Place,
    depth: nat,
) -> Option<Seq<Token>>
    decreases depth, 0nat, 0nat,
{
    if depth == 0 {
        None
    } else {
        match struct_at(data, header, index) {
            None => None,
            Some(record) => match fields_tokens(data, header, record, 0, (depth - 1) as nat) {
                None => None,
                Some(fields) => Some(
                    seq![place.begin(Tag(record.tag), record.fields)] + fields + seq![place.end()],
                ),
            },
        }
    }
}

/// The tokens of the fields of the struct with the record `record`, from
/// the field `j` on.
pub open spec fn fields_tokens(
    data: Seq<u8>,
    header: Header,
    record: raw::Struct,
    j: nat,
    depth: nat,
) -> Option<Seq<Token>>
    decreases depth, 2nat, record.fields - j,
{
    if j >= record.fields {
        Some(Seq::empty())
    } else {
        match field_of(data, header, record, j) {
            None => None,
            Some(field) => match field_tokens(data, header, FieldIndex(field), depth) {
                None => None,
                Some(first) => match fields_tokens(data, header, record, j + 1, depth) {
                    None => None,
                    Some(rest) => Some(first + rest),
                },
            },
        }
    }
}

/// The tokens of the field with the number `index`: its label, and its
/// value with all that it holds.
pub open spec fn field_tokens(data: Seq<u8>, header: Header, index: FieldIndex, depth: nat)
    -> Option<Seq<Token>>
    decreases depth, 1nat, 0nat,
{
    match field_at(data, header, index) {
        None => None,
        Some((tag, label, value)) => {
            let tokens = if tag == STRUCT_TAG {
                struct_tokens(data, header, StructIndex(value), Place::Struct, depth)
            } else if tag == LIST_TAG {
                if depth == 0 {
                    None
                } else {
                    match list_len_at(data, header, value) {
                        None => None,
                        Some(count) => match items_tokens(
                            data,
                            header,
                            value,
                            0,
                            count,
                            (depth - 1) as nat,
                        ) {
                            None => None,
                            Some(items) => Some(
                                seq![Token::ListBegin(count)] + items + seq![Token::ListEnd],
                            ),
                        },
                    }
                }
            } else {
                match SimpleValueRef::of(tag, value) {
                    Ok(v) => Some(seq![Token::Value(v)]),
                    Err(_) => None,
                }
            };
            match tokens {
                None => None,
                Some(tokens) => Some(seq![Token::Label(LabelIndex(label))] + tokens),
            }
        },
    }
}

/// The tokens of the items of the list that lies `list` bytes into the
/// section of the struct lists and has `count` items, from the item `k` on.
pub open spec fn items_tokens(
    data: Seq<u8>,
    header: Header,
    list: u32,
    k: nat,
    count: u32,
    depth: nat,
) -> Option<Seq<Token>>
    decreases depth, 1nat, count - k,
{
    if k >= count {
        Some(Seq::empty())
    } else {
        match u32_at(data, ListIndicesIndex(list, k as u32).spec_offset(&header)) {
            None => None,
            Some(item) => match struct_tokens(
                data,
                header,
                StructIndex(item),
                Place::Item(k as u32),
                depth,
            ) {
                None => None,
                Some(first) => match items_tokens(data, header, list, k + 1, count, depth) {
                    None => None,
                    Some(rest) => Some(first + rest),
                },
            },
        }
    }
}

/// The tokens of the file `data`, where it nests no deeper than `depth`.
pub open spec fn file_tokens(data: Seq<u8>, header: Header, depth: nat) -> Option<Seq<Token>> {
    struct_tokens(data, header, StructIndex(0), Place::Root, depth)
}

/// The state in which the fields of the struct with the record `record`
/// are read from the field `j` on, and which goes on to `end` behind the
/// last one.
pub open spec fn fields_state(record: raw::Struct, j: nat, end: State) -> State {
    if record.fields == 1 {
        if j == 0 {
            State::ReadLabel(ReadLabel { index: FieldIndex(record.offset), state: Box::new(end) })
        } else {
            end
        }
    } else if record.fields == 0 {
        end
    } else {
        State::ReadFields(
            ReadFields {
                index: FieldIndicesIndex(record.offset, j as u32),
                count: (record.fields - j) as u32,
                state: Box::new(end),
            },
        )
    }
}

/// Steps of the parser, and more steps behind them, are as many steps as both
/// together, and give the tokens of both.
pub proof fn lemma_run_append(
    state: State,
    data: Seq<u8>,
    header: Header,
    n: nat,
    m: nat,
)
    ensures
        run(state, data, header, n) matches Some((first, middle)) ==> (run(
            middle,
            data,
            header,
            m,
        ) matches Some((second, last)) ==> run(state, data, header, n + m) == Some(
            (first + second, last),
        )),
    decreases n,
{
    if n == 0 {
        match run(state, data, header, m) {
            Some((second, last)) => {
                assert(Seq::<Token>::empty() + second =~= second);
            },
            None => {},
        }
    } else {
        match state.step(data, header) {
            Ok((token, next)) => {
                lemma_run_append(next, data, header, (n - 1) as nat, m);
                match run(next, data, header, (n - 1) as nat) {
                    Some((first, middle)) => {
                        match run(middle, data, header, m) {
                            Some((second, last)) => {
                                assert((seq![token] + first) + second =~= seq![token] + (first
                                    + second));
                                assert(run(state, data, header, n + m) == Some(
                                    (seq![token] + (first + second), last),
                                ));
                            },
                            None => {},
                        }
                    },
                    None => {},
                }
            },
            Err(_) => {},
        }
    }
}

/// One step of the parser is a run of one step.
pub proof fn lemma_run_one(state: State, data: Seq<u8>, header: Header)
    ensures
        state.step(data, header) matches Ok((token, next)) ==> run(state, data, header, 1)
            == Some((seq![token], next)),
{
    reveal_with_fuel(run, 2);
    match state.step(data, header) {
        Ok((token, next)) => {
            assert(seq![token] + Seq::<Token>::empty() =~= seq![token]);
        },
        Err(_) => {},
    }
}

/// Where no field of a struct is left, the parser gives the token that
/// closes the struct, and then is in the state that the struct was entered
/// from.
pub proof fn lemma_fields_end(
    data: Seq<u8>,
    header: Header,
    record: raw::Struct,
    j: nat,
    place: Place,
    back: State,
)
    requires
        j == record.fields,
    ensures
        fields_state(record, j, place.ended(back)).step(data, header) == Ok::<
            (Token, State),
            crate::error::Error,
        >((place.end(), back)),
{
    reveal_with_fuel(State::step, 2);
    match place {
        Place::Root => {},
        Place::Struct => {},
        Place::Item(_) => {},
    }
}

/// Where a field of a struct is left, the parser reads the record of that
/// field, and then goes on with the fields behind it.
pub proof fn lemma_fields_step(
    data: Seq<u8>,
    header: Header,
    record: raw::Struct,
    j: nat,
    end: State,
)
    requires
        j < record.fields,
    ensures
        field_of(data, header, record, j) matches Some(field) ==> fields_state(
            record,
            j,
            end,
        ).step(data, header) == State::ReadLabel(
            ReadLabel {
                index: FieldIndex(field),
                state: Box::new(fields_state(record, j + 1, end)),
            },
        ).step(data, header),
{
}

/// From the state behind the token that opens a struct, the parser gives
/// the tokens of the fields of the struct and the token that closes it, and
/// then is in the state that the struct was entered from.
#[verifier::rlimit(40)]
pub proof fn lemma_fields_stream(
    data: Seq<u8>,
    header: Header,
    record: raw::Struct,
    j: nat,
    depth: nat,
    place: Place,
    back: State,
)
    requires
        j <= record.fields,
    ensures
        fields_tokens(data, header, record, j, depth) matches Some(tokens) ==> run(
            fields_state(record, j, place.ended(back)),
            data,
            header,
            tokens.len() + 1,
        ) == Some((tokens + seq![place.end()], back)),
    decreases depth, 2nat, record.fields - j,
{
    let end = place.ended(back);
    let state = fields_state(record, j, end);
    match fields_tokens(data, header, record, j, depth) {
        None => {},
        Some(tokens) => {
            if j >= record.fields {
                assert(tokens =~= Seq::<Token>::empty());
                lemma_fields_end(data, header, record, j, place, back);
                lemma_run_one(state, data, header);
                assert(tokens + seq![place.end()] =~= seq![place.end()]);
            } else {
                let field = field_of(data, header, record, j)->0;
                let first = field_tokens(data, header, FieldIndex(field), depth)->0;
                let rest = fields_tokens(data, header, record, j + 1, depth)->0;
                let after = fields_state(record, j + 1, end);
                let label = State::ReadLabel(
                    ReadLabel { index: FieldIndex(field), state: Box::new(after) },
                );
                assert(run(label, data, header, first.len()) == Some((first, after))) by {
                    lemma_field_stream(data, header, FieldIndex(field), depth, after);
                }
                assert(run(after, data, header, rest.len() + 1) == Some(
                    (rest + seq![place.end()], back),
                )) by {
                    lemma_fields_stream(data, header, record, j + 1, depth, place, back);
                }
                assert(first.len() > 0) by {
                    lemma_field_tokens_len(data, header, FieldIndex(field), depth);
                }
                assert(run(label, data, header, tokens.len() + 1) == Some(
                    (tokens + seq![place.end()], back),
                )) by {
                    lemma_run_append(label, data, header, first.len(), rest.len() + 1);
                    assert(first + (rest + seq![place.end()]) =~= tokens + seq![place.end()]);
                    assert(first.len() + (rest.len() + 1) == tokens.len() + 1);
                }
                assert(run(state, data, header, tokens.len() + 1) == run(
                    label,
                    data,
                    header,
                    tokens.len() + 1,
                )) by {
                    lemma_fields_step(data, header, record, j, end);
                    lemma_same_step(state, label, data, header, (tokens.len() + 1) as nat);
                }
            }
        },
    }
}

/// A field has a token at least: its label.
pub proof fn lemma_field_tokens_len(data: Seq<u8>, header: Header, index: FieldIndex, depth: nat)
    ensures
        field_tokens(data, header, index, depth) matches Some(tokens) ==> tokens.len() > 0,
{
}

/// Two states from which the parser takes the same step give the same
/// tokens.
pub proof fn lemma_same_step(a: State, b: State, data: Seq<u8>, header: Header, n: nat)
    requires
        a.step(data, header) == b.step(data, header),
        n > 0,
    ensures
        run(a, data, header, n) == run(b, data, header, n),
{
}

/// From the state that reads the record of a field, the parser gives the
/// tokens of the field, and after them is in the state to go on to.
#[verifier::rlimit(40)]
pub proof fn lemma_field_stream(
    data: Seq<u8>,
    header: Header,
    index: FieldIndex,
    depth: nat,
    back: State,
)
    ensures
        field_tokens(data, header, index, depth) matches Some(tokens) ==> run(
            State::ReadLabel(ReadLabel { index, state: Box::new(back) }),
            data,
            header,
            tokens.len(),
        ) == Some((tokens, back)),
    decreases depth, 1nat, 0nat,
{
    match field_tokens(data, header, index, depth) {
        None => {},
        Some(tokens) => {
            let (tag, label, value) = field_at(data, header, index)->0;
            let start = State::ReadLabel(ReadLabel { index, state: Box::new(back) });
            let read = State::ReadField(ReadField { tag, data: value, state: Box::new(back) });
            lemma_run_one(start, data, header);
            if tag == STRUCT_TAG {
                let inner = struct_tokens(data, header, StructIndex(value), Place::Struct, depth)->0;
                lemma_struct_stream(data, header, StructIndex(value), Place::Struct, depth, back);
                lemma_entered(data, header, StructIndex(value), Place::Struct, back);
                lemma_run_append(start, data, header, 1, inner.len());
            } else if tag == LIST_TAG {
                let count = list_len_at(data, header, value)->0;
                let items = items_tokens(data, header, value, 0, count, (depth - 1) as nat)->0;
                let list = State::ReadItems(
                    ReadItems { index: ListIndicesIndex(value, 0), count, state: Box::new(back) },
                );
                lemma_items_stream(data, header, value, 0, count, (depth - 1) as nat, back);
                lemma_run_one(read, data, header);
                lemma_run_append(read, data, header, 1, items.len() + 1);
                lemma_run_append(start, data, header, 1, items.len() + 2);
                assert(seq![Token::Label(LabelIndex(label))] + (seq![Token::ListBegin(count)] + (
                items + seq![Token::ListEnd])) =~= tokens);
            } else {
                lemma_run_one(read, data, header);
                lemma_run_append(start, data, header, 1, 1);
            }
        },
    }
}

/// The state that the parser is in behind the token that opens the struct
/// with the number `index`.
pub open spec fn entered(
    data: Seq<u8>,
    header: Header,
    index: StructIndex,
    place: Place,
    back: State,
) -> State {
    fields_state(struct_at(data, header, index)->0, 0, place.ended(back))
}

/// The step of the parser into the struct with the number `index`, from
/// each of the states that lead into a struct.
pub proof fn lemma_entered(
    data: Seq<u8>,
    header: Header,
    index: StructIndex,
    place: Place,
    back: State,
)
    ensures
        struct_at(data, header, index) matches Some(record) ==> {
            let step = Ok::<(Token, State), crate::error::Error>(
                (
                    place.begin(Tag(record.tag), record.fields),
                    entered(data, header, index, place, back),
                ),
            );
            match place {
                Place::Root => ReadStruct { index, state: Box::new(back), data: Root }.step(
                    data,
                    header,
                ) == step,
                Place::Struct => ReadStruct { index, state: Box::new(back), data: Struct }.step(
                    data,
                    header,
                ) == step,
                Place::Item(k) => ReadStruct {
                    index,
                    state: Box::new(back),
                    data: Item { index: k },
                }.step(data, header) == step,
            }
        },
{
}

/// From the state behind the token that opens the struct with the number
/// `index`, the parser gives the other tokens of the struct, and after them is in
/// the state to go on to.
pub proof fn lemma_struct_stream(
    data: Seq<u8>,
    header: Header,
    index: StructIndex,
    place: Place,
    depth: nat,
    back: State,
)
    ensures
        struct_tokens(data, header, index, place, depth) matches Some(tokens) ==> tokens.len() > 0
            && tokens[0] == place.begin(
            Tag(struct_at(data, header, index)->0.tag),
            struct_at(data, header, index)->0.fields,
        ) && run(
            entered(data, header, index, place, back),
            data,
            header,
            (tokens.len() - 1) as nat,
        ) == Some((tokens.drop_first(), back)),
    decreases depth, 0nat, 0nat,
{
    match struct_tokens(data, header, index, place, depth) {
        None => {},
        Some(tokens) => {
            let record = struct_at(data, header, index)->0;
            let fields = fields_tokens(data, header, record, 0, (depth - 1) as nat)->0;
            lemma_fields_stream(data, header, record, 0, (depth - 1) as nat, place, back);
            assert(tokens.drop_first() =~= fields + seq![place.end()]);
        },
    }
}

/// From the state that reads the items of a list, the parser gives the
/// tokens of the items and the token that closes the list, and after them is in
/// the state to go on to.
#[verifier::rlimit(40)]
pub proof fn lemma_items_stream(
    data: Seq<u8>,
    header: Header,
    list: u32,
    k: nat,
    count: u32,
    depth: nat,
    back: State,
)
    requires
        k <= count,
    ensures
        items_tokens(data, header, list, k, count, depth) matches Some(tokens) ==> run(
            State::ReadItems(
                ReadItems {
                    index: ListIndicesIndex(list, k as u32),
                    count: (count - k) as u32,
                    state: Box::new(back),
                },
            ),
            data,
            header,
            tokens.len() + 1,
        ) == Some((tokens + seq![Token::ListEnd], back)),
    decreases depth, 1nat, count - k,
{
    let state = State::ReadItems(
        ReadItems {
            index: ListIndicesIndex(list, k as u32),
            count: (count - k) as u32,
            state: Box::new(back),
        },
    );
    match items_tokens(data, header, list, k, count, depth) {
        None => {},
        Some(tokens) => {
            if k >= count {
                assert(tokens =~= Seq::<Token>::empty());
                lemma_run_one(state, data, header);
                assert(tokens + seq![Token::ListEnd] =~= seq![Token::ListEnd]);
            } else {
                let item = u32_at(
                    data,
                    ListIndicesIndex(list, k as u32).spec_offset(&header),
                )->0;
                let place = Place::Item(k as u32);
                let first = struct_tokens(data, header, StructIndex(item), place, depth)->0;
                let rest = items_tokens(data, header, list, k + 1, count, depth)->0;
                let after = State::ReadItems(
                    ReadItems {
                        index: ListIndicesIndex(list, (k + 1) as u32),
                        count: (count - k - 1) as u32,
                        state: Box::new(back),
                    },
                );
                lemma_struct_stream(data, header, StructIndex(item), place, depth, after);
                lemma_entered(data, header, StructIndex(item), place, after);
                lemma_items_stream(data, header, list, k + 1, count, depth, back);
                lemma_run_one(state, data, header);
                let inside = entered(data, header, StructIndex(item), place, after);
                lemma_run_append(state, data, header, 1, (first.len() - 1) as nat);
                assert(seq![first[0]] + first.drop_first() =~= first);
                lemma_run_append(state, data, header, first.len(), rest.len() + 1);
                assert(first + (rest + seq![Token::ListEnd]) =~= tokens + seq![Token::ListEnd]);
            }
        },
    }
}

/// The parser gives the tokens of a file, all of them and no others: from
/// its first state it gives the tokens of the struct at the top, with all
/// that it holds, and after them has read the file to its end.
pub proof fn lemma_file_stream(data: Seq<u8>, header: Header, depth: nat, start: State)
    requires
        start == State::Start(
            ReadStruct { index: StructIndex(0), state: Box::new(State::Finish), data: Root },
        ),
    ensures
        file_tokens(data, header, depth) matches Some(tokens) ==> run(
            start,
            data,
            header,
            tokens.len(),
        ) == Some((tokens, State::Finish)),
{
    match file_tokens(data, header, depth) {
        None => {},
        Some(tokens) => {
            lemma_struct_stream(data, header, StructIndex(0), Place::Root, depth, State::Finish);
            lemma_entered(data, header, StructIndex(0), Place::Root, State::Finish);
            lemma_run_one(start, data, header);
            lemma_run_append(start, data, header, 1, (tokens.len() - 1) as nat);
            assert(seq![tokens[0]] + tokens.drop_first() =~= tokens);
        },
    }
}

} // verus!
