//! What the tokens of a file tell of, and how many they are at least.
//!
//! The parser starts at the struct at the top and follows each field to its
//! value. A struct or a field that stands nowhere below the top is never
//! read, and one that stands in two places is read twice. So the tokens are
//! counted against the structs, fields and lists that the parser comes by,
//! and against the records of the file only where it comes by each of them.

use crate::header::Header;
use crate::index::{FieldIndex, Index, ListIndicesIndex, StructIndex};
use crate::parser::grammar::run;
use crate::parser::states::{
    field_at, list_len_at, struct_at, ReadStruct, Root, State, LIST_TAG, STRUCT_TAG,
};
use crate::parser::stream::{
    field_of, field_tokens, fields_tokens, file_tokens, items_tokens, lemma_file_stream,
    struct_tokens, Place,
};
use crate::raw;
use crate::source::u32_at;
use vstd::prelude::*;
use vstd::seq_lib::seq_to_set_is_finite;
use vstd::set_lib::{lemma_int_range, lemma_len_subset, set_int_range};

verus! {

/// Whether the field record with the number `f` of the file `data` is that
/// of a list.
pub open spec fn is_list_field(data: Seq<u8>, header: Header, f: int) -> bool {
    field_at(data, header, FieldIndex(f as u32)) matches Some((tag, _, _)) && tag == LIST_TAG
}

/// How many of the first `n` field records of the file `data` are those of
/// lists. With `n` the number of all fields, this is the number of lists of
/// the file.
pub open spec fn list_fields(data: Seq<u8>, header: Header, n: nat) -> nat
    decreases n,
{
    if n == 0 {
        0
    } else {
        list_fields(data, header, (n - 1) as nat) + if is_list_field(data, header, n - 1) {
            1nat
        } else {
            0nat
        }
    }
}

/// The number of lists of the file `data`: that of its field records whose
/// type is a list.
pub open spec fn list_count(data: Seq<u8>, header: Header) -> nat {
    list_fields(data, header, header.fields.count as nat)
}

/// The records that the parser comes by, each as often as it does: the
/// numbers of the structs, those of the fields, and those of the fields
/// that are lists.
pub struct Reached {
    /// The numbers of the structs.
    pub structs: Seq<int>,
    /// The numbers of the fields.
    pub fields: Seq<int>,
    /// The numbers of the fields that are lists.
    pub lists: Seq<int>,
}

impl Reached {
    /// Nothing.
    pub open spec fn nothing() -> Reached {
        Reached { structs: Seq::empty(), fields: Seq::empty(), lists: Seq::empty() }
    }

    /// The records of `self`, followed by those of `other`.
    pub open spec fn with(self, other: Reached) -> Reached {
        Reached {
            structs: self.structs + other.structs,
            fields: self.fields + other.fields,
            lists: self.lists + other.lists,
        }
    }

    /// The least number of tokens that tell of these records: two for each
    /// struct and each list, or one for each field, whichever is more.
    pub open spec fn token_count(self) -> nat {
        let size = 2 * (self.structs.len() + self.lists.len());
        if size >= self.fields.len() {
            size
        } else {
            self.fields.len()
        }
    }
}

/// The records that the tokens of the struct with the number `index` tell
/// of, to the depth `depth`.
pub open spec fn struct_reach(data: Seq<u8>, header: Header, index: StructIndex, depth: nat)
    -> Reached
    decreases depth, 0nat, 0nat,
{
    if depth == 0 {
        Reached::nothing()
    } else {
        match struct_at(data, header, index) {
            None => Reached::nothing(),
            Some(record) => Reached {
                structs: seq![index.0 as int],
                fields: Seq::empty(),
                lists: Seq::empty(),
            }.with(fields_reach(data, header, record, 0, (depth - 1) as nat)),
        }
    }
}

/// The records that the tokens of the fields of the struct with the record
/// `record` tell of, from the field `j` on.
pub open spec fn fields_reach(
    data: Seq<u8>,
    header: Header,
    record: raw::Struct,
    j: nat,
    depth: nat,
) -> Reached
    decreases depth, 2nat, record.fields - j,
{
    if j >= record.fields {
        Reached::nothing()
    } else {
        match field_of(data, header, record, j) {
            None => Reached::nothing(),
            Some(field) => field_reach(data, header, FieldIndex(field), depth).with(
                fields_reach(data, header, record, j + 1, depth),
            ),
        }
    }
}

/// The records that the tokens of the field with the number `index` tell
/// of: its own, and those of its value.
pub open spec fn field_reach(data: Seq<u8>, header: Header, index: FieldIndex, depth: nat)
    -> Reached
    decreases depth, 1nat, 0nat,
{
    match field_at(data, header, index) {
        None => Reached::nothing(),
        Some((tag, label, value)) => {
            let own = Reached {
                structs: Seq::empty(),
                fields: seq![index.0 as int],
                lists: if tag == LIST_TAG {
                    seq![index.0 as int]
                } else {
                    Seq::empty()
                },
            };
            if tag == STRUCT_TAG {
                own.with(struct_reach(data, header, StructIndex(value), depth))
            } else if tag == LIST_TAG && depth > 0 {
                match list_len_at(data, header, value) {
                    None => own,
                    Some(count) => own.with(
                        items_reach(data, header, value, 0, count, (depth - 1) as nat),
                    ),
                }
            } else {
                own
            }
        },
    }
}

/// The records that the tokens of the items of a list tell of, from the
/// item `k` on.
pub open spec fn items_reach(
    data: Seq<u8>,
    header: Header,
    list: u32,
    k: nat,
    count: u32,
    depth: nat,
) -> Reached
    decreases depth, 1nat, count - k,
{
    if k >= count {
        Reached::nothing()
    } else {
        match u32_at(data, ListIndicesIndex(list, k as u32).spec_offset(&header)) {
            None => Reached::nothing(),
            Some(item) => struct_reach(data, header, StructIndex(item), depth).with(
                items_reach(data, header, list, k + 1, count, depth),
            ),
        }
    }
}

/// The records that the tokens of the file `data` tell of, to the depth
/// `depth`: those that stand somewhere below the struct at the top.
pub open spec fn file_reach(data: Seq<u8>, header: Header, depth: nat) -> Reached {
    struct_reach(data, header, StructIndex(0), depth)
}

/// Whether each struct record and each field record of the file `data`
/// stands somewhere below the struct at the top, no deeper than `depth`.
pub open spec fn all_reached(data: Seq<u8>, header: Header, depth: nat) -> bool {
    &&& forall|s: int|
        0 <= s < header.structs.count ==> #[trigger] file_reach(data, header, depth).structs.contains(s)
    &&& forall|f: int|
        0 <= f < header.fields.count ==> #[trigger] file_reach(data, header, depth).fields.contains(f)
}

/// The tokens of a struct are at least two for each struct and each list
/// that they tell of, and at least one for each field.
pub proof fn lemma_struct_count(
    data: Seq<u8>,
    header: Header,
    index: StructIndex,
    place: Place,
    depth: nat,
)
    ensures
        struct_tokens(data, header, index, place, depth) matches Some(tokens) ==> tokens.len()
            >= struct_reach(data, header, index, depth).token_count(),
    decreases depth, 0nat, 0nat,
{
    if depth > 0 {
        match struct_at(data, header, index) {
            None => {},
            Some(record) => {
                lemma_fields_count(data, header, record, 0, (depth - 1) as nat);
            },
        }
    }
}

/// The tokens of the fields of a struct are at least two for each struct
/// and each list that they tell of, and at least one for each field.
pub proof fn lemma_fields_count(
    data: Seq<u8>,
    header: Header,
    record: raw::Struct,
    j: nat,
    depth: nat,
)
    ensures
        fields_tokens(data, header, record, j, depth) matches Some(tokens) ==> tokens.len()
            >= fields_reach(data, header, record, j, depth).token_count(),
    decreases depth, 2nat, record.fields - j,
{
    if j < record.fields {
        match field_of(data, header, record, j) {
            None => {},
            Some(field) => {
                lemma_field_count(data, header, FieldIndex(field), depth);
                lemma_fields_count(data, header, record, j + 1, depth);
            },
        }
    }
}

/// The tokens of a field are at least two for each struct and each list
/// that they tell of, and at least one for each field.
pub proof fn lemma_field_count(data: Seq<u8>, header: Header, index: FieldIndex, depth: nat)
    ensures
        field_tokens(data, header, index, depth) matches Some(tokens) ==> tokens.len()
            >= field_reach(data, header, index, depth).token_count(),
    decreases depth, 1nat, 0nat,
{
    match field_at(data, header, index) {
        None => {},
        Some((tag, label, value)) => {
            if tag == STRUCT_TAG {
                lemma_struct_count(data, header, StructIndex(value), Place::Struct, depth);
            } else if tag == LIST_TAG && depth > 0 {
                match list_len_at(data, header, value) {
                    None => {},
                    Some(count) => {
                        lemma_items_count(data, header, value, 0, count, (depth - 1) as nat);
                    },
                }
            }
        },
    }
}

/// The tokens of the items of a list are at least two for each struct and
/// each list that they tell of, and at least one for each field.
pub proof fn lemma_items_count(
    data: Seq<u8>,
    header: Header,
    list: u32,
    k: nat,
    count: u32,
    depth: nat,
)
    ensures
        items_tokens(data, header, list, k, count, depth) matches Some(tokens) ==> tokens.len()
            >= items_reach(data, header, list, k, count, depth).token_count(),
    decreases depth, 1nat, count - k,
{
    if k < count {
        match u32_at(data, ListIndicesIndex(list, k as u32).spec_offset(&header)) {
            None => {},
            Some(item) => {
                lemma_struct_count(data, header, StructIndex(item), Place::Item(k as u32), depth);
                lemma_items_count(data, header, list, k + 1, count, depth);
            },
        }
    }
}

/// A number is in one sequence followed by another exactly where it is in
/// one of the two.
pub proof fn lemma_in_either(a: Seq<int>, b: Seq<int>, x: int)
    ensures
        (a + b).contains(x) <==> a.contains(x) || b.contains(x),
{
    if a.contains(x) {
        let i = choose|i: int| 0 <= i < a.len() && a[i] == x;
        assert((a + b)[i] == x);
    }
    if b.contains(x) {
        let i = choose|i: int| 0 <= i < b.len() && b[i] == x;
        assert((a + b)[a.len() + i] == x);
    }
    if (a + b).contains(x) {
        let i = choose|i: int| 0 <= i < (a + b).len() && (a + b)[i] == x;
        if i < a.len() {
            assert(a[i] == x);
        } else {
            assert(b[i - a.len()] == x);
        }
    }
}

/// A field that the tokens of a struct tell of, and that is a list, is
/// among the lists that they tell of.
pub proof fn lemma_struct_lists(
    data: Seq<u8>,
    header: Header,
    index: StructIndex,
    depth: nat,
    f: int,
)
    requires
        is_list_field(data, header, f),
        struct_reach(data, header, index, depth).fields.contains(f),
    ensures
        struct_reach(data, header, index, depth).lists.contains(f),
    decreases depth, 0nat, 0nat,
{
    if depth > 0 {
        match struct_at(data, header, index) {
            None => {},
            Some(record) => {
                let inner = fields_reach(data, header, record, 0, (depth - 1) as nat);
                lemma_in_either(Seq::empty(), inner.fields, f);
                lemma_in_either(Seq::empty(), inner.lists, f);
                lemma_fields_lists(data, header, record, 0, (depth - 1) as nat, f);
            },
        }
    }
}

/// A field that the tokens of the fields of a struct tell of, and that is a
/// list, is among the lists that they tell of.
pub proof fn lemma_fields_lists(
    data: Seq<u8>,
    header: Header,
    record: raw::Struct,
    j: nat,
    depth: nat,
    f: int,
)
    requires
        is_list_field(data, header, f),
        fields_reach(data, header, record, j, depth).fields.contains(f),
    ensures
        fields_reach(data, header, record, j, depth).lists.contains(f),
    decreases depth, 2nat, record.fields - j,
{
    if j < record.fields {
        match field_of(data, header, record, j) {
            None => {},
            Some(field) => {
                let first = field_reach(data, header, FieldIndex(field), depth);
                let rest = fields_reach(data, header, record, j + 1, depth);
                lemma_in_either(first.fields, rest.fields, f);
                lemma_in_either(first.lists, rest.lists, f);
                if first.fields.contains(f) {
                    lemma_field_lists(data, header, FieldIndex(field), depth, f);
                } else {
                    lemma_fields_lists(data, header, record, j + 1, depth, f);
                }
            },
        }
    }
}

/// A field that the tokens of a field tell of, and that is a list, is among
/// the lists that they tell of.
pub proof fn lemma_field_lists(
    data: Seq<u8>,
    header: Header,
    index: FieldIndex,
    depth: nat,
    f: int,
)
    requires
        is_list_field(data, header, f),
        field_reach(data, header, index, depth).fields.contains(f),
    ensures
        field_reach(data, header, index, depth).lists.contains(f),
    decreases depth, 1nat, 0nat,
{
    match field_at(data, header, index) {
        None => {},
        Some((tag, label, value)) => {
            let own = seq![index.0 as int];
            let lists = if tag == LIST_TAG {
                own
            } else {
                Seq::empty()
            };
            if f == index.0 {
                assert(FieldIndex(f as u32) == index);
                assert(lists[0] == f);
            }
            if tag == STRUCT_TAG {
                let inner = struct_reach(data, header, StructIndex(value), depth);
                lemma_in_either(own, inner.fields, f);
                lemma_in_either(lists, inner.lists, f);
                if f != index.0 {
                    lemma_struct_lists(data, header, StructIndex(value), depth, f);
                }
            } else if tag == LIST_TAG && depth > 0 {
                match list_len_at(data, header, value) {
                    None => {},
                    Some(count) => {
                        let inner = items_reach(data, header, value, 0, count, (depth - 1) as nat);
                        lemma_in_either(own, inner.fields, f);
                        lemma_in_either(lists, inner.lists, f);
                        if f != index.0 {
                            lemma_items_lists(
                                data,
                                header,
                                value,
                                0,
                                count,
                                (depth - 1) as nat,
                                f,
                            );
                        }
                    },
                }
            }
        },
    }
}

/// A field that the tokens of the items of a list tell of, and that is a
/// list, is among the lists that they tell of.
pub proof fn lemma_items_lists(
    data: Seq<u8>,
    header: Header,
    list: u32,
    k: nat,
    count: u32,
    depth: nat,
    f: int,
)
    requires
        is_list_field(data, header, f),
        items_reach(data, header, list, k, count, depth).fields.contains(f),
    ensures
        items_reach(data, header, list, k, count, depth).lists.contains(f),
    decreases depth, 1nat, count - k,
{
    if k < count {
        match u32_at(data, ListIndicesIndex(list, k as u32).spec_offset(&header)) {
            None => {},
            Some(item) => {
                let first = struct_reach(data, header, StructIndex(item), depth);
                let rest = items_reach(data, header, list, k + 1, count, depth);
                lemma_in_either(first.fields, rest.fields, f);
                lemma_in_either(first.lists, rest.lists, f);
                if first.fields.contains(f) {
                    lemma_struct_lists(data, header, StructIndex(item), depth, f);
                } else {
                    lemma_items_lists(data, header, list, k + 1, count, depth, f);
                }
            },
        }
    }
}

/// A sequence that holds each of the numbers below `n` holds `n` numbers
/// at least.
pub proof fn lemma_holds_all(s: Seq<int>, n: nat)
    requires
        forall|i: int| 0 <= i < n ==> s.contains(i),
    ensures
        s.len() >= n,
{
    let range = set_int_range(0, n as int);
    lemma_int_range(0, n as int);
    s.lemma_cardinality_of_set();
    seq_to_set_is_finite(s);
    assert(range.subset_of(s.to_set())) by {
        assert forall|i: int| range.contains(i) implies s.to_set().contains(i) by {
            assert(s.contains(i));
        }
    }
    lemma_len_subset(range, s.to_set());
}

/// The fields below the number `n` that are lists.
pub open spec fn list_fields_below(data: Seq<u8>, header: Header, n: nat) -> Set<int> {
    Set::new(|f: int| 0 <= f < n && is_list_field(data, header, f))
}

/// The lists among the first `n` fields are counted one by one.
pub proof fn lemma_list_fields(data: Seq<u8>, header: Header, n: nat)
    ensures
        list_fields_below(data, header, n).finite(),
        list_fields_below(data, header, n).len() == list_fields(data, header, n),
    decreases n,
{
    let all = list_fields_below(data, header, n);
    if n == 0 {
        assert(all =~= Set::empty());
    } else {
        let before = list_fields_below(data, header, (n - 1) as nat);
        lemma_list_fields(data, header, (n - 1) as nat);
        if is_list_field(data, header, n - 1) {
            assert(all =~= before.insert(n - 1));
            assert(!before.contains(n - 1));
        } else {
            assert(all =~= before);
        }
    }
}

/// A sequence that holds each of the fields below `n` that are lists holds
/// as many numbers at least as there are lists among these fields.
pub proof fn lemma_holds_lists(data: Seq<u8>, header: Header, s: Seq<int>, n: nat)
    requires
        forall|f: int| 0 <= f < n && is_list_field(data, header, f) ==> s.contains(f),
    ensures
        s.len() >= list_fields(data, header, n),
{
    let lists = list_fields_below(data, header, n);
    lemma_list_fields(data, header, n);
    s.lemma_cardinality_of_set();
    seq_to_set_is_finite(s);
    assert(lists.subset_of(s.to_set())) by {
        assert forall|f: int| lists.contains(f) implies s.to_set().contains(f) by {
            assert(s.contains(f));
        }
    }
    lemma_len_subset(lists, s.to_set());
}

/// The tokens of a file are at least two for each struct and each list
/// that the parser comes by, and at least one for each field; a record is
/// counted as often as the parser comes by it.
pub proof fn lemma_file_count(data: Seq<u8>, header: Header, depth: nat)
    ensures
        file_tokens(data, header, depth) matches Some(tokens) ==> tokens.len() >= file_reach(
            data,
            header,
            depth,
        ).token_count(),
{
    lemma_struct_count(data, header, StructIndex(0), Place::Root, depth);
}

/// Where each struct and each field of a file stands somewhere below the
/// struct at the top, the parser comes by as many structs, fields and lists
/// at least as the file holds.
pub proof fn lemma_all_reached(data: Seq<u8>, header: Header, depth: nat)
    requires
        all_reached(data, header, depth),
    ensures
        file_reach(data, header, depth).structs.len() >= header.structs.count,
        file_reach(data, header, depth).fields.len() >= header.fields.count,
        file_reach(data, header, depth).lists.len() >= list_count(data, header),
{
    let reached = file_reach(data, header, depth);
    assert forall|s: int| 0 <= s < header.structs.count implies reached.structs.contains(s) by {}
    lemma_holds_all(reached.structs, header.structs.count as nat);
    assert forall|f: int| 0 <= f < header.fields.count implies reached.fields.contains(f) by {}
    lemma_holds_all(reached.fields, header.fields.count as nat);
    assert forall|f: int|
        0 <= f < header.fields.count && is_list_field(
            data,
            header,
            f,
        ) implies reached.lists.contains(f) by {
        assert(reached.fields.contains(f));
        lemma_struct_lists(data, header, StructIndex(0), depth, f);
    }
    lemma_holds_lists(data, header, reached.lists, header.fields.count as nat);
}

/// Where each struct and each field of a file stands somewhere below the
/// struct at the top, the tokens of the file are at least as many as its
/// token count says: two for each struct and each list, and one for each
/// field. And these are the tokens that the parser gives from its first
/// state until it has read the file to its end.
pub proof fn lemma_token_count_is_lower_bound(
    data: Seq<u8>,
    header: Header,
    depth: nat,
    start: State,
)
    requires
        all_reached(data, header, depth),
        start == State::Start(
            ReadStruct { index: StructIndex(0), state: Box::new(State::Finish), data: Root },
        ),
    ensures
        file_tokens(data, header, depth) matches Some(tokens) ==> tokens.len()
            >= header.spec_token_count(list_count(data, header)) && run(
            start,
            data,
            header,
            tokens.len(),
        ) == Some((tokens, State::Finish)),
{
    lemma_file_stream(data, header, depth, start);
    lemma_file_count(data, header, depth);
    lemma_all_reached(data, header, depth);
}

} // verus!
