//! Where the records of a written file lie: the proof that a parser finds
//! in the file that a serializer writes what the serializer holds.

use crate::endian::{lemma_u32_round_trip, u32_le};
use crate::header::{lemma_header_parts, Header};
use crate::index::{
    FieldIndex, FieldIndicesIndex, Index, LabelIndex, ListIndicesIndex, StructIndex,
};
use crate::parser::states::{field_at, list_len_at, struct_at};
use crate::raw::{
    concat, labels_bytes, lemma_concat_fixed, lemma_file_holds_runs, lemma_labels_bytes,
    lemma_struct_round_trip, lemma_words_bytes, lemma_words_in, words_at, words_bytes,
};
use crate::ser::{
    lemma_lists_size, lemma_lists_words, lists_bytes, lists_size, lists_words, Content,
};
use crate::sig::Signature;
use crate::source::{bytes_at, u32_at};
use crate::ver::Version;
use vstd::prelude::*;

verus! {

impl Content {
    /// Whether the sections of the file `data` hold what this content
    /// holds, each where the header `h` says that it lies.
    pub open spec fn laid_out(self, data: Seq<u8>, h: Header) -> bool {
        &&& h.structs.offset == 56
        &&& h.structs.count == self.structs.len()
        &&& h.fields.offset == 56 + 12 * self.structs.len()
        &&& h.fields.count == self.fields.len()
        &&& h.labels.offset == h.fields.offset + 12 * self.fields.len()
        &&& h.labels.count == self.labels.len()
        &&& h.field_data.offset == h.labels.offset + 16 * self.labels.len()
        &&& h.field_data.count == self.field_data.len()
        &&& h.field_indices.offset == h.field_data.offset + self.field_data.len()
        &&& h.field_indices.count == self.field_indices_size()
        &&& h.list_indices.offset == h.field_indices.offset + self.field_indices_size()
        &&& h.list_indices.count == self.list_indices_size()
        &&& data.len() == h.list_indices.offset + self.list_indices_size()
        &&& bytes_at(data, 0, 56) == Some(h.bytes())
        &&& bytes_at(data, 56, 12 * (self.structs.len() as int)) == Some(self.structs_bytes())
        &&& bytes_at(data, h.fields.offset as int, 12 * (self.fields.len() as int)) == Some(
            self.fields_bytes(),
        )
        &&& bytes_at(data, h.labels.offset as int, 16 * (self.labels.len() as int)) == Some(
            labels_bytes(self.labels),
        )
        &&& bytes_at(data, h.field_data.offset as int, self.field_data.len() as int) == Some(
            self.field_data,
        )
        &&& words_at(
            data,
            h.field_indices.offset as int,
            lists_words(self.field_indices, false, self.field_indices.len() as int),
        )
        &&& words_at(
            data,
            h.list_indices.offset as int,
            lists_words(self.list_indices, true, self.list_indices.len() as int),
        )
    }
}

/// The 12 bytes of each record of the structs and of the fields.
pub proof fn lemma_record_sizes(content: Content)
    ensures
        content.structs_bytes().len() == 12 * content.structs.len(),
        content.fields_bytes().len() == 12 * content.fields.len(),
        forall|i: int|
            0 <= i < content.structs.len() ==> content.structs_bytes().subrange(
                12 * i,
                12 * i + 12,
            ) == (#[trigger] content.structs[i]).raw(content.field_offsets()).bytes(),
        forall|i: int|
            0 <= i < content.fields.len() ==> content.fields_bytes().subrange(12 * i, 12 * i + 12)
                == (#[trigger] content.fields[i]).bytes(content.list_offsets()),
{
    let structs = Seq::new(
        content.structs.len(),
        |i: int| content.structs[i].raw(content.field_offsets()).bytes(),
    );
    assert forall|i: int| 0 <= i < structs.len() implies (#[trigger] structs[i]).len() == 12 by {
        lemma_struct_round_trip(content.structs[i].raw(content.field_offsets()));
    }
    lemma_concat_fixed(structs, 12);
    assert forall|i: int| 0 <= i < content.structs.len() implies content.structs_bytes().subrange(
        12 * i,
        12 * i + 12,
    ) == (#[trigger] content.structs[i]).raw(content.field_offsets()).bytes() by {
        assert(structs[i] == content.structs[i].raw(content.field_offsets()).bytes());
    }
    let fields = Seq::new(
        content.fields.len(),
        |i: int| content.fields[i].bytes(content.list_offsets()),
    );
    lemma_concat_fixed(fields, 12);
    assert forall|i: int| 0 <= i < content.fields.len() implies content.fields_bytes().subrange(
        12 * i,
        12 * i + 12,
    ) == (#[trigger] content.fields[i]).bytes(content.list_offsets()) by {
        assert(fields[i] == content.fields[i].bytes(content.list_offsets()));
    }
}

/// The file that is written holds each section where its header says.
#[verifier::rlimit(40)]
pub proof fn lemma_laid_out(content: Content, signature: Signature, version: Version)
    requires
        content.size() <= u32::MAX,
    ensures
        content.laid_out(
            content.bytes(signature, version),
            content.header(signature, version),
        ),
{
    let h = content.header(signature, version);
    let data = content.bytes(signature, version);
    let fi = lists_words(content.field_indices, false, content.field_indices.len() as int);
    let li = lists_words(content.list_indices, true, content.list_indices.len() as int);
    lemma_lists_size(content.field_indices, 0, 0, content.field_indices.len() as int);
    lemma_lists_size(content.list_indices, 1, 0, content.list_indices.len() as int);
    lemma_lists_words(content.field_indices, false, content.field_indices.len() as int);
    lemma_lists_words(content.list_indices, true, content.list_indices.len() as int);
    lemma_words_bytes(fi);
    lemma_words_bytes(li);
    lemma_header_parts(h);
    lemma_record_sizes(content);
    lemma_labels_bytes(content.labels);
    lemma_file_holds_runs(
        h.bytes(),
        content.structs_bytes(),
        content.fields_bytes(),
        labels_bytes(content.labels),
        content.field_data,
        words_bytes(fi),
        words_bytes(li),
    );
    lemma_words_in(data, h.field_indices.offset as int, fi);
    lemma_words_in(data, h.list_indices.offset as int, li);
}

/// A part of a run of bytes that a file holds lies in the file where it
/// lies in the run.
pub proof fn lemma_part_at(data: Seq<u8>, at: int, all: Seq<u8>, from: int, part: Seq<u8>)
    requires
        at >= 0,
        bytes_at(data, at, all.len() as int) == Some(all),
        0 <= from,
        part.len() > 0,
        from + part.len() <= all.len(),
        all.subrange(from, from + part.len()) == part,
    ensures
        bytes_at(data, at + from, part.len() as int) == Some(part),
{
    assert(data.subrange(at + from, at + from + part.len()) =~= all.subrange(
        from,
        from + part.len(),
    ));
}

/// Where a file holds the 12 bytes of three numbers, it holds each of the
/// numbers.
pub proof fn lemma_three_words(data: Seq<u8>, at: int, a: u32, b: u32, c: u32)
    requires
        at >= 0,
        bytes_at(data, at, 12) == Some(u32_le(a) + u32_le(b) + u32_le(c)),
    ensures
        u32_at(data, at) == Some(a),
        u32_at(data, at + 4) == Some(b),
        u32_at(data, at + 8) == Some(c),
{
    let record = u32_le(a) + u32_le(b) + u32_le(c);
    lemma_u32_round_trip(a);
    lemma_u32_round_trip(b);
    lemma_u32_round_trip(c);
    assert(data.subrange(at, at + 4) =~= u32_le(a)) by {
        assert(data.subrange(at, at + 4) =~= record.subrange(0, 4));
    }
    assert(data.subrange(at + 4, at + 8) =~= u32_le(b)) by {
        assert(data.subrange(at + 4, at + 8) =~= record.subrange(4, 8));
    }
    assert(data.subrange(at + 8, at + 12) =~= u32_le(c)) by {
        assert(data.subrange(at + 8, at + 12) =~= record.subrange(8, 12));
    }
}

/// In a file that holds what a serializer holds, the parser finds the
/// record of each struct.
#[verifier::rlimit(40)]
pub proof fn lemma_finds_struct(content: Content, data: Seq<u8>, h: Header, i: int)
    requires
        content.laid_out(data, h),
        0 <= i < content.structs.len(),
    ensures
        struct_at(data, h, StructIndex(i as u32)) == Some(
            content.structs[i].raw(content.field_offsets()),
        ),
{
    let record = content.structs[i].raw(content.field_offsets());
    let all = content.structs_bytes();
    assert(bytes_at(data, 56 + 12 * i, 12) == Some(record.bytes())) by {
        lemma_record_sizes(content);
        lemma_struct_round_trip(record);
        lemma_part_at(data, 56, all, 12 * i, record.bytes());
    }
    lemma_struct_round_trip(record);
}

/// In a file that holds what a serializer holds, the parser finds the
/// record of each field.
#[verifier::rlimit(40)]
pub proof fn lemma_finds_field(content: Content, data: Seq<u8>, h: Header, j: int)
    requires
        content.laid_out(data, h),
        0 <= j < content.fields.len(),
    ensures
        field_at(data, h, FieldIndex(j as u32)) == Some(
            content.fields[j].words(content.list_offsets()),
        ),
{
    let (tag, label, value) = content.fields[j].words(content.list_offsets());
    let record = content.fields[j].bytes(content.list_offsets());
    let all = content.fields_bytes();
    let at = h.fields.offset + 12 * j;
    assert(bytes_at(data, at, 12) == Some(record)) by {
        lemma_record_sizes(content);
        lemma_u32_round_trip(tag);
        lemma_u32_round_trip(label);
        lemma_u32_round_trip(value);
        lemma_part_at(data, h.fields.offset as int, all, 12 * j, record);
    }
    lemma_three_words(data, at, tag, label, value);
}

/// In a file that holds what a serializer holds, the parser finds each
/// label.
pub proof fn lemma_finds_label(content: Content, data: Seq<u8>, h: Header, i: int)
    requires
        content.laid_out(data, h),
        0 <= i < content.labels.len(),
    ensures
        bytes_at(data, LabelIndex(i as u32).spec_offset(&h), 16) == Some(content.labels[i].0@),
{
    let all = labels_bytes(content.labels);
    lemma_labels_bytes(content.labels);
    lemma_part_at(data, h.labels.offset as int, all, 16 * i, content.labels[i].0@);
}

/// Where the lists lie among their numbers: each list lies behind all lists
/// before it, with its length before it where the lists have their lengths
/// before them.
pub proof fn lemma_list_start(lists: Seq<Seq<u32>>, n: int, k: int)
    requires
        0 <= k < n <= lists.len(),
    ensures
        lists_size(lists, 1, k) % 4 == 0,
        0 <= lists_size(lists, 1, k) / 4 < lists_words(lists, true, n).len(),
        lists_words(lists, true, n)[lists_size(lists, 1, k) / 4] == lists[k].len() as u32,
    decreases n,
{
    lemma_lists_size(lists, 1, k, n);
    lemma_lists_words(lists, true, n - 1);
    lemma_lists_words(lists, true, n);
    if k < n - 1 {
        lemma_list_start(lists, n - 1, k);
    } else {
        lemma_lists_size(lists, 1, k, n - 1);
    }
}

/// Where the entries of the lists lie among their numbers: the entry `m`
/// of the list `k` lies behind all lists before it, and behind the length
/// of its own list where the lists have their lengths before them.
pub proof fn lemma_list_entry(lists: Seq<Seq<u32>>, prefixed: bool, n: int, k: int, m: int)
    requires
        0 <= k < n <= lists.len(),
        0 <= m < lists[k].len(),
    ensures
        ({
            let extra: int = if prefixed {
                1
            } else {
                0
            };
            let at = lists_size(lists, extra, k) / 4 + extra + m;
            &&& lists_size(lists, extra, k) % 4 == 0
            &&& 0 <= at < lists_words(lists, prefixed, n).len()
            &&& lists_words(lists, prefixed, n)[at] == lists[k][m]
        }),
    decreases n,
{
    let extra: int = if prefixed {
        1
    } else {
        0
    };
    lemma_lists_size(lists, extra, k, n);
    lemma_lists_words(lists, prefixed, n - 1);
    lemma_lists_words(lists, prefixed, n);
    if k < n - 1 {
        lemma_list_entry(lists, prefixed, n - 1, k, m);
    } else {
        lemma_lists_size(lists, extra, k, n - 1);
    }
}

/// In a file that holds what a serializer holds, the parser finds each
/// entry of the field list of each struct with several fields.
pub proof fn lemma_finds_field_entry(content: Content, data: Seq<u8>, h: Header, k: int, m: int)
    requires
        content.laid_out(data, h),
        content.field_indices_size() <= u32::MAX,
        0 <= k < content.field_indices.len(),
        0 <= m < content.field_indices[k].len(),
    ensures
        u32_at(
            data,
            FieldIndicesIndex(content.field_offsets()[k], m as u32).spec_offset(&h),
        ) == Some(content.field_indices[k][m]),
{
    let n = content.field_indices.len() as int;
    lemma_list_entry(content.field_indices, false, n, k, m);
    lemma_lists_size(content.field_indices, 0, k, n);
    lemma_lists_size(content.field_indices, 0, k + 1, n);
    let words = lists_words(content.field_indices, false, n);
    let at = lists_size(content.field_indices, 0, k) / 4 + m;
    assert(u32_at(data, h.field_indices.offset + 4 * at) == Some(words[at]));
}

/// In a file that holds what a serializer holds, the parser finds the
/// length of each list.
pub proof fn lemma_finds_list(content: Content, data: Seq<u8>, h: Header, k: int)
    requires
        content.laid_out(data, h),
        content.list_indices_size() <= u32::MAX,
        0 <= k < content.list_indices.len(),
    ensures
        list_len_at(data, h, content.list_offsets()[k]) == Some(
            content.list_indices[k].len() as u32,
        ),
{
    let n = content.list_indices.len() as int;
    lemma_list_start(content.list_indices, n, k);
    lemma_lists_size(content.list_indices, 1, k, n);
    let words = lists_words(content.list_indices, true, n);
    let at = lists_size(content.list_indices, 1, k) / 4;
    assert(u32_at(data, h.list_indices.offset + 4 * at) == Some(words[at]));
}

/// In a file that holds what a serializer holds, the parser finds each item
/// of each list.
pub proof fn lemma_finds_item(content: Content, data: Seq<u8>, h: Header, k: int, m: int)
    requires
        content.laid_out(data, h),
        content.list_indices_size() <= u32::MAX,
        0 <= k < content.list_indices.len(),
        0 <= m < content.list_indices[k].len(),
    ensures
        u32_at(
            data,
            ListIndicesIndex(content.list_offsets()[k], m as u32).spec_offset(&h),
        ) == Some(content.list_indices[k][m]),
{
    let n = content.list_indices.len() as int;
    lemma_list_entry(content.list_indices, true, n, k, m);
    lemma_lists_size(content.list_indices, 1, k, n);
    lemma_lists_size(content.list_indices, 1, k + 1, n);
    let words = lists_words(content.list_indices, true, n);
    let at = lists_size(content.list_indices, 1, k) / 4 + 1 + m;
    assert(u32_at(data, h.list_indices.offset + 4 * at) == Some(words[at]));
}

} // verus!
