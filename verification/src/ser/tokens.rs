//! The tokens of a file in the making: what a parser will read from the
//! file that a serializer writes, told from what the serializer holds.

use crate::header::Header;
use crate::index::{FieldIndex, FieldIndicesIndex, Index, LabelIndex, ListIndicesIndex, StructIndex};
use crate::parser::states::{field_at, list_len_at, struct_at};
use crate::parser::grammar::run;
use crate::parser::reach::{list_count, list_fields};
use crate::parser::states::{ReadStruct, Root, State};
use crate::parser::stream::{self, lemma_file_stream, Place};
use crate::parser::{Tag, Token};
use crate::ser::layout::{
    lemma_finds_field, lemma_finds_field_entry, lemma_finds_item, lemma_finds_list,
    lemma_finds_struct, lemma_laid_out,
};
use crate::ser::{lemma_lists_size, Content, Field, Struct};
use crate::sig::Signature;
use crate::source::u32_at;
use crate::value::{lemma_value_round_trip, SimpleValueRef};
use crate::ver::Version;
use vstd::prelude::*;

verus! {

impl Content {
    /// The number of fields that the record of the struct `i` tells of.
    pub open spec fn field_count(self, i: int) -> u32 {
        match self.structs[i] {
            Struct::NoFields => 0,
            Struct::OneField(_) => 1,
            Struct::MultiField { fields, .. } => fields,
        }
    }

    /// The number of the field `j` of the struct `i`, where the struct
    /// knows of such a field.
    pub open spec fn field_of(self, i: int, j: int) -> Option<u32> {
        match self.structs[i] {
            Struct::NoFields => None,
            Struct::OneField(field) => Some(field),
            Struct::MultiField { list, fields } => if fields >= 2 && 0 <= j
                < self.field_indices[list.0 as int].len() {
                Some(self.field_indices[list.0 as int][j])
            } else {
                None
            },
        }
    }

    /// The tokens of the struct `i`, which stands in `place`, with all that
    /// it holds, where that nests no deeper than `depth`.
    pub open spec fn struct_tokens(self, i: int, place: Place, depth: nat) -> Option<Seq<Token>>
        decreases depth, 0nat, 0nat,
    {
        if depth == 0 || !(0 <= i < self.structs.len()) {
            None
        } else {
            match self.fields_tokens(i, 0, (depth - 1) as nat) {
                None => None,
                Some(fields) => Some(
                    seq![place.begin(Tag(0), self.field_count(i))] + fields + seq![place.end()],
                ),
            }
        }
    }

    /// The tokens of the fields of the struct `i`, from the field `j` on.
    pub open spec fn fields_tokens(self, i: int, j: nat, depth: nat) -> Option<Seq<Token>>
        decreases depth, 2nat, self.field_count(i) - j,
    {
        if j >= self.field_count(i) {
            Some(Seq::empty())
        } else {
            match self.field_of(i, j as int) {
                None => None,
                Some(field) => match self.field_tokens(field as int, depth) {
                    None => None,
                    Some(first) => match self.fields_tokens(i, j + 1, depth) {
                        None => None,
                        Some(rest) => Some(first + rest),
                    },
                },
            }
        }
    }

    /// The tokens of the field `f`: its label, and its value with all that
    /// it holds.
    pub open spec fn field_tokens(self, f: int, depth: nat) -> Option<Seq<Token>>
        decreases depth, 1nat, 0nat,
    {
        if !(0 <= f < self.fields.len()) {
            None
        } else {
            match self.fields[f] {
                Field::Simple { label, value } => Some(
                    seq![Token::Label(label), Token::Value(value)],
                ),
                Field::Struct { label, struct_ } => match self.struct_tokens(
                    struct_.0 as int,
                    Place::Struct,
                    depth,
                ) {
                    None => None,
                    Some(tokens) => Some(seq![Token::Label(label)] + tokens),
                },
                Field::List { label, list } => if depth == 0 {
                    None
                } else {
                    match self.items_tokens(list.0 as int, 0, (depth - 1) as nat) {
                        None => None,
                        Some(items) => Some(
                            seq![Token::Label(label)] + (seq![
                                Token::ListBegin(self.list_indices[list.0 as int].len() as u32),
                            ] + items + seq![Token::ListEnd]),
                        ),
                    }
                },
            }
        }
    }

    /// The tokens of the items of the list `list`, from the item `k` on.
    pub open spec fn items_tokens(self, list: int, k: nat, depth: nat) -> Option<Seq<Token>>
        decreases depth, 1nat, self.list_indices[list].len() - k,
    {
        if k >= self.list_indices[list].len() {
            Some(Seq::empty())
        } else {
            match self.struct_tokens(
                self.list_indices[list][k as int] as int,
                Place::Item(k as u32),
                depth,
            ) {
                None => None,
                Some(first) => match self.items_tokens(list, k + 1, depth) {
                    None => None,
                    Some(rest) => Some(first + rest),
                },
            }
        }
    }

    /// The tokens of the file in the making, where it nests no deeper than
    /// `depth`: those of its first struct, which stands at the top.
    pub open spec fn tokens(self, depth: nat) -> Option<Seq<Token>> {
        self.struct_tokens(0, Place::Root, depth)
    }

    /// Whether the file `data` with the header `h` holds what this content
    /// holds, and both are sound.
    pub open spec fn written(self, data: Seq<u8>, h: Header) -> bool {
        &&& self.wf()
        &&& self.size() <= u32::MAX
        &&& self.laid_out(data, h)
    }
}

/// The record of the struct `i`, as the parser finds it in the file.
pub proof fn lemma_record(content: Content, data: Seq<u8>, h: Header, i: int)
    requires
        content.written(data, h),
        0 <= i < content.structs.len(),
    ensures
        struct_at(data, h, StructIndex(i as u32)) == Some(
            content.structs[i].raw(content.field_offsets()),
        ),
        content.structs[i].raw(content.field_offsets()).tag == 0,
        content.structs[i].raw(content.field_offsets()).fields == content.field_count(i),
        content.structs[i] matches Struct::MultiField { list, .. } ==> content.structs[i].raw(
            content.field_offsets(),
        ).offset == content.field_offsets()[list.0 as int],
        content.structs[i] matches Struct::OneField(field) ==> content.structs[i].raw(
            content.field_offsets(),
        ).offset == field,
{
    lemma_finds_struct(content, data, h, i);
}

/// The tokens of the fields of a struct that a parser reads from a written
/// file are those that the serializer holds.
#[verifier::rlimit(40)]
pub proof fn lemma_fields_tokens(
    content: Content,
    data: Seq<u8>,
    h: Header,
    i: int,
    j: nat,
    depth: nat,
)
    requires
        content.written(data, h),
        0 <= i < content.structs.len(),
    ensures
        content.fields_tokens(i, j, depth) matches Some(tokens) ==> stream::fields_tokens(
            data,
            h,
            content.structs[i].raw(content.field_offsets()),
            j,
            depth,
        ) == Some(tokens),
    decreases depth, 2nat, content.field_count(i) - j,
{
    let record = content.structs[i].raw(content.field_offsets());
    lemma_record(content, data, h, i);
    match content.fields_tokens(i, j, depth) {
        None => {},
        Some(tokens) => {
            if j < content.field_count(i) {
                let field = content.field_of(i, j as int)->0;
                assert(stream::field_of(data, h, record, j) == Some(field)) by {
                    match content.structs[i] {
                        Struct::MultiField { list, fields } => {
                            lemma_lists_size(
                                content.field_indices,
                                0,
                                0,
                                content.field_indices.len() as int,
                            );
                            lemma_finds_field_entry(content, data, h, list.0 as int, j as int);
                        },
                        _ => {},
                    }
                }
                lemma_field_tokens(content, data, h, field as int, depth);
                lemma_fields_tokens(content, data, h, i, j + 1, depth);
            }
        },
    }
}

/// The tokens of a field that a parser reads from a written file are those
/// that the serializer holds.
#[verifier::rlimit(40)]
pub proof fn lemma_field_tokens(content: Content, data: Seq<u8>, h: Header, f: int, depth: nat)
    requires
        content.written(data, h),
    ensures
        content.field_tokens(f, depth) matches Some(tokens) ==> stream::field_tokens(
            data,
            h,
            FieldIndex(f as u32),
            depth,
        ) == Some(tokens),
    decreases depth, 1nat, 0nat,
{
    match content.field_tokens(f, depth) {
        None => {},
        Some(tokens) => {
            lemma_finds_field(content, data, h, f);
            lemma_lists_size(content.list_indices, 1, 0, content.list_indices.len() as int);
            match content.fields[f] {
                Field::Simple { label, value } => {
                    lemma_value_round_trip(value);
                },
                Field::Struct { label, struct_ } => {
                    lemma_struct_tokens(content, data, h, struct_.0 as int, Place::Struct, depth);
                },
                Field::List { label, list } => {
                    lemma_finds_list(content, data, h, list.0 as int);
                    lemma_items_tokens(content, data, h, list.0 as int, 0, (depth - 1) as nat);
                },
            }
        },
    }
}

/// The tokens of a struct that a parser reads from a written file are those
/// that the serializer holds.
pub proof fn lemma_struct_tokens(
    content: Content,
    data: Seq<u8>,
    h: Header,
    i: int,
    place: Place,
    depth: nat,
)
    requires
        content.written(data, h),
    ensures
        content.struct_tokens(i, place, depth) matches Some(tokens) ==> stream::struct_tokens(
            data,
            h,
            StructIndex(i as u32),
            place,
            depth,
        ) == Some(tokens),
    decreases depth, 0nat, 0nat,
{
    match content.struct_tokens(i, place, depth) {
        None => {},
        Some(tokens) => {
            lemma_record(content, data, h, i);
            lemma_fields_tokens(content, data, h, i, 0, (depth - 1) as nat);
        },
    }
}

/// The tokens of the items of a list that a parser reads from a written
/// file are those that the serializer holds.
#[verifier::rlimit(40)]
pub proof fn lemma_items_tokens(
    content: Content,
    data: Seq<u8>,
    h: Header,
    list: int,
    k: nat,
    depth: nat,
)
    requires
        content.written(data, h),
        0 <= list < content.list_indices.len(),
    ensures
        content.items_tokens(list, k, depth) matches Some(tokens) ==> stream::items_tokens(
            data,
            h,
            content.list_offsets()[list],
            k,
            content.list_indices[list].len() as u32,
            depth,
        ) == Some(tokens),
    decreases depth, 1nat, content.list_indices[list].len() - k,
{
    let items = content.list_indices[list];
    let at = content.list_offsets()[list];
    let count = items.len() as u32;
    assert(items.len() <= u32::MAX) by {
        lemma_lists_size(content.list_indices, 1, 0, content.list_indices.len() as int);
        lemma_lists_size(content.list_indices, 1, list, content.list_indices.len() as int);
        lemma_lists_size(content.list_indices, 1, list + 1, content.list_indices.len() as int);
    }
    match content.items_tokens(list, k, depth) {
        None => {},
        Some(tokens) => {
            if k < items.len() {
                let item = items[k as int];
                let first = content.struct_tokens(item as int, Place::Item(k as u32), depth)->0;
                let rest = content.items_tokens(list, k + 1, depth)->0;
                assert(u32_at(data, ListIndicesIndex(at, k as u32).spec_offset(&h)) == Some(
                    item,
                )) by {
                    lemma_lists_size(content.list_indices, 1, 0, content.list_indices.len() as int);
                    lemma_finds_item(content, data, h, list, k as int);
                }
                assert(stream::struct_tokens(
                    data,
                    h,
                    StructIndex(item),
                    Place::Item(k as u32),
                    depth,
                ) == Some(first)) by {
                    lemma_struct_tokens(content, data, h, item as int, Place::Item(k as u32), depth);
                }
                assert(stream::items_tokens(data, h, at, k + 1, count, depth) == Some(rest)) by {
                    lemma_items_tokens(content, data, h, list, k + 1, depth);
                }
            }
        },
    }
}

/// What is written is what is read: the tokens that a parser reads from
/// the file that a serializer writes are the tokens of what the serializer
/// holds, with its structs, fields and lists in their order, and with each
/// value as it was handed in.
pub proof fn lemma_written_tokens(
    content: Content,
    signature: Signature,
    version: Version,
    depth: nat,
)
    requires
        content.wf(),
        content.size() <= u32::MAX,
    ensures
        content.tokens(depth) matches Some(tokens) ==> stream::file_tokens(
            content.bytes(signature, version),
            content.header(signature, version),
            depth,
        ) == Some(tokens),
{
    lemma_laid_out(content, signature, version);
    lemma_struct_tokens(
        content,
        content.bytes(signature, version),
        content.header(signature, version),
        0,
        Place::Root,
        depth,
    );
}

/// Reading a written file to its end gives the tokens of what the
/// serializer holds, and no others: from its first state the parser gives
/// each of these tokens in turn, and then has read the file to its end.
pub proof fn lemma_written_then_read(
    content: Content,
    signature: Signature,
    version: Version,
    depth: nat,
    start: State,
)
    requires
        content.wf(),
        content.size() <= u32::MAX,
        start == State::Start(
            ReadStruct { index: StructIndex(0), state: Box::new(State::Finish), data: Root },
        ),
    ensures
        content.tokens(depth) matches Some(tokens) ==> run(
            start,
            content.bytes(signature, version),
            content.header(signature, version),
            tokens.len(),
        ) == Some((tokens, State::Finish)),
{
    lemma_written_tokens(content, signature, version, depth);
    lemma_file_stream(
        content.bytes(signature, version),
        content.header(signature, version),
        depth,
        start,
    );
}

impl Content {
    /// How many of the first `n` fields are lists.
    pub open spec fn list_fields(self, n: nat) -> nat
        decreases n,
    {
        if n == 0 {
            0
        } else {
            self.list_fields((n - 1) as nat) + if self.fields[n - 1] is List {
                1nat
            } else {
                0nat
            }
        }
    }
}

/// The lists that a parser counts in a written file are the list fields
/// that the serializer holds: a field record has the type of a list
/// exactly where the field is one.
pub proof fn lemma_counts_lists(content: Content, data: Seq<u8>, h: Header, n: nat)
    requires
        content.written(data, h),
        n <= content.fields.len(),
    ensures
        list_fields(data, h, n) == content.list_fields(n),
        n == content.fields.len() ==> list_count(data, h) == content.list_fields(n),
    decreases n,
{
    if n > 0 {
        lemma_counts_lists(content, data, h, (n - 1) as nat);
        lemma_finds_field(content, data, h, n - 1);
    }
}

} // verus!
