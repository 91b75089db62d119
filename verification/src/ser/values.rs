//! The values of a file in the making: that a parser reads from the file
//! that a serializer writes the values that were handed to the serializer.
//!
//! The tokens of a file hold a small value as it is and a large one as its
//! place in the field data. So what is shown here is that the bytes of each
//! large value lie at that place, and that they are read as the value. A
//! text is written in UTF-8; it is read as it was where the parser reads
//! UTF-8 and gives up on bytes that are none.

use crate::endian::{lemma_u32_round_trip, lemma_u64_round_trip, u32_le};
use crate::error::Result;
use crate::header::Header;
use crate::parser::{
    loc_string_at, run_at, short_run_at, string_at, substrings_at, substrings_content, Parser,
};
use crate::ser::layout::lemma_part_at;
use crate::ser::{
    is_inline, lemma_substrings_payload_len, payload, run_payload, substrings_payload, value_ref,
    writable, Content, Field, FieldSerializer, StructSerializer,
};
use crate::source::{bytes_at, u32_at, u64_at, u8_at};
use crate::string::SubString;
use crate::text::{lemma_text_round_trip, DecoderTrap};
use crate::value::{SimpleValue, SimpleValueRef};
use vstd::prelude::*;
use vstd::utf8::encode_utf8;

verus! {

/// Whether `a` and `b` are the same value: the same number, the same text,
/// or the same bytes.
pub open spec fn same_value(a: SimpleValue, b: SimpleValue) -> bool {
    match (a, b) {
        (SimpleValue::String(s), SimpleValue::String(t)) => s@ == t@,
        (SimpleValue::ResRef(s), SimpleValue::ResRef(t)) => s.bytes() == t.bytes(),
        (SimpleValue::LocString(s), SimpleValue::LocString(t)) => s.content() == t.content(),
        (SimpleValue::Void(s), SimpleValue::Void(t)) => s@ == t@,
        _ => a == b,
    }
}

impl Content {
    /// Whether the field `f` holds `value`: its record holds the value
    /// itself where the value is small, else the place in the field data
    /// at which the bytes of the value lie.
    pub open spec fn holds(self, f: int, value: SimpleValue) -> bool {
        &&& 0 <= f < self.fields.len()
        &&& writable(value)
        &&& self.fields[f] matches Field::Simple { value: held, .. } && held == value_ref(
            value,
            held.spec_data(),
        ) && (is_inline(value) || {
            let at = held.spec_data() as int;
            &&& at + payload(value).len() <= self.field_data.len()
            &&& self.field_data.subrange(at, at + payload(value).len()) == payload(value)
        })
    }

    /// What the record of the field `f` holds, where the field holds a
    /// value.
    pub open spec fn held(self, f: int) -> SimpleValueRef {
        self.fields[f]->Simple_value
    }
}

/// A value that was written as the value of a field is held by that field.
pub proof fn lemma_written_holds(field: FieldSerializer, before: Content, value: SimpleValue)
    requires
        FieldSerializer::can_write(before, value),
    ensures
        field.written(before, value).holds(before.fields.len() as int, value),
{
    let after = field.written(before, value);
    let at = before.field_data.len() as int;
    assert(after.field_data.subrange(at, at + payload(value).len()) =~= payload(value));
}

impl Content {
    /// Whether `after` has the fields and the field data of this content
    /// at its front.
    pub open spec fn grows_to(self, after: Content) -> bool {
        self.fields.is_prefix_of(after.fields) && self.field_data.is_prefix_of(after.field_data)
    }
}

/// Whatever a serializer adds to what it holds, the fields and the field
/// data that it held stay at the front.
pub proof fn lemma_grows(
    content: Content,
    label: crate::label::Label,
    count: u32,
    field: Field,
    bytes: Seq<u8>,
    name: crate::index::LabelIndex,
    struct_index: crate::ser::StructIndex,
    fields_index: crate::ser::FieldListIndex,
    number: u32,
    list: crate::ser::ListIndex,
)
    ensures
        content.grows_to(content.with_label(label)),
        content.grows_to(content.with_struct(count)),
        content.grows_to(content.with_field(field)),
        content.grows_to(content.with_data(bytes)),
        content.grows_to(content.with_list(name)),
        content.grows_to(content.with_field_of(struct_index, fields_index, number)),
        content.grows_to(content.with_item(list)),
{
}

/// A field holds its value for good: whatever is added to the fields and
/// to the field data behind it, the field holds what it held.
pub proof fn lemma_still_holds(before: Content, after: Content, f: int, value: SimpleValue)
    requires
        before.holds(f, value),
        before.grows_to(after),
    ensures
        after.holds(f, value),
        after.held(f) == before.held(f),
{
    let at = before.held(f).spec_data() as int;
    assert(after.fields[f] == before.fields[f]);
    if !is_inline(value) {
        assert(after.field_data.subrange(at, at + payload(value).len()) =~= before.field_data.subrange(
            at,
            at + payload(value).len(),
        ));
    }
}

/// A field that was written to a struct with its value holds that value.
pub proof fn lemma_field_holds(
    handle: StructSerializer,
    before: Content,
    key: Seq<char>,
    value: SimpleValue,
    after: Content,
    r: Result<()>,
)
    requires
        handle.fits(before),
        handle.writes_field(before, key, value, after, r),
        r is Ok,
    ensures
        after.holds(before.fields.len() as int, value),
{
    let name = encode_utf8(key);
    let labelled = before.with_label(crate::ser::label_named(name));
    let field = FieldSerializer {
        label: crate::index::LabelIndex(before.place_of(crate::ser::label_named(name)) as u32),
        index: before.fields.len() as u32,
    };
    lemma_written_holds(field, labelled, value);
    lemma_still_holds(field.written(labelled, value), after, before.fields.len() as int, value);
}

/// The bytes of the first texts of a localized string are the first of the
/// bytes of all its texts.
pub proof fn lemma_texts_prefix(strings: Seq<SubString>, i: int)
    requires
        0 <= i <= strings.len(),
    ensures
        substrings_payload(strings.take(i)).is_prefix_of(substrings_payload(strings)),
    decreases strings.len(),
{
    if i == strings.len() {
        assert(strings.take(i) =~= strings);
    } else {
        lemma_texts_prefix(strings.drop_last(), i);
        assert(strings.drop_last().take(i) =~= strings.take(i));
    }
}

/// Whether the file `data` holds `bytes` at offset `at`.
pub open spec fn lies_at(data: Seq<u8>, at: int, bytes: Seq<u8>) -> bool {
    0 <= at && at + bytes.len() <= data.len() && data.subrange(at, at + bytes.len()) == bytes
}

/// A part of bytes that a file holds lies in the file where it lies in the
/// bytes.
pub proof fn lemma_part_lies_at(data: Seq<u8>, at: int, all: Seq<u8>, from: int, part: Seq<u8>)
    requires
        lies_at(data, at, all),
        0 <= from,
        from + part.len() <= all.len(),
        all.subrange(from, from + part.len()) == part,
    ensures
        lies_at(data, at + from, part),
{
    assert(data.subrange(at + from, at + from + part.len()) =~= all.subrange(
        from,
        from + part.len(),
    ));
}

/// Where a file holds a number of four bytes, that number is read there.
pub proof fn lemma_number_lies_at(data: Seq<u8>, at: int, n: u32)
    requires
        lies_at(data, at, u32_le(n)),
    ensures
        u32_at(data, at) == Some(n),
{
    lemma_u32_round_trip(n);
}

/// Where a file holds a run of bytes behind its length, these bytes are
/// read there.
pub proof fn lemma_run_lies_at(data: Seq<u8>, at: int, bytes: Seq<u8>)
    requires
        bytes.len() <= u32::MAX,
        lies_at(data, at, run_payload(bytes)),
    ensures
        run_at(data, at) == Some(bytes),
{
    let all = run_payload(bytes);
    let n = bytes.len() as int;
    lemma_u32_round_trip(bytes.len() as u32);
    assert(all.subrange(0, 4) =~= u32_le(bytes.len() as u32));
    assert(all.subrange(4, 4 + n) =~= bytes);
    lemma_part_lies_at(data, at, all, 0, u32_le(bytes.len() as u32));
    lemma_part_lies_at(data, at, all, 4, bytes);
    lemma_number_lies_at(data, at, bytes.len() as u32);
    if n == 0 {
        assert(bytes =~= Seq::empty());
    }
}

/// Where a file holds a text in UTF-8 behind its length, that text is read
/// there.
pub proof fn lemma_text_lies_at(data: Seq<u8>, at: int, text: Seq<char>)
    requires
        encode_utf8(text).len() <= u32::MAX,
        lies_at(data, at, run_payload(encode_utf8(text))),
    ensures
        string_at(data, at, "utf-8"@, DecoderTrap::Strict) == Ok::<
            Seq<char>,
            crate::parser::Failure,
        >(text),
        u32_at(data, at) == Some(encode_utf8(text).len() as u32),
{
    lemma_run_lies_at(data, at, encode_utf8(text));
    lemma_text_round_trip(text);
}

/// The bytes of the first texts of a localized string, and of one text
/// more: the key of that text and the text as a run of bytes follow those
/// of the texts before it.
pub proof fn lemma_texts_grow(strings: Seq<SubString>, i: int)
    requires
        0 <= i < strings.len(),
    ensures
        substrings_payload(strings.take(i + 1)) == substrings_payload(strings.take(i)) + u32_le(
            strings[i].key.0,
        ) + run_payload(encode_utf8(strings[i].string@)),
        substrings_payload(strings.take(i + 1)).len() == substrings_payload(
            strings.take(i),
        ).len() + 8 + encode_utf8(strings[i].string@).len(),
        substrings_payload(strings.take(i + 1)).len() <= substrings_payload(strings).len(),
{
    assert(strings.take(i + 1).drop_last() =~= strings.take(i));
    assert(strings.take(i + 1).last() == strings[i]);
    lemma_u32_round_trip(strings[i].key.0);
    lemma_u32_round_trip(encode_utf8(strings[i].string@).len() as u32);
    lemma_texts_prefix(strings, i + 1);
}

/// The texts of a localized string are read one by one: the first with
/// the number of its key, and then those behind it.
pub proof fn lemma_texts_step(
    data: Seq<u8>,
    at: int,
    count: nat,
    key: u32,
    text: Seq<char>,
    len: u32,
    rest: Seq<(u32, Seq<char>)>,
)
    requires
        count > 0,
        u32_at(data, at) == Some(key),
        u32_at(data, at + 4) == Some(len),
        string_at(data, at + 4, "utf-8"@, DecoderTrap::Strict) == Ok::<
            Seq<char>,
            crate::parser::Failure,
        >(text),
        substrings_at(data, at + 8 + len, (count - 1) as nat, "utf-8"@, DecoderTrap::Strict)
            == Ok::<Seq<(u32, Seq<char>)>, crate::parser::Failure>(rest),
    ensures
        substrings_at(data, at, count, "utf-8"@, DecoderTrap::Strict) == Ok::<
            Seq<(u32, Seq<char>)>,
            crate::parser::Failure,
        >(seq![(key, text)] + rest),
{
}

/// Where a file holds the bytes of the texts of a localized string, they
/// are read as these texts, each with the number of its key: from the text
/// `i` on, the texts behind it are read.
pub proof fn lemma_texts_lie_at(data: Seq<u8>, at: int, strings: Seq<SubString>, i: int)
    requires
        0 <= i <= strings.len(),
        substrings_payload(strings).len() <= u32::MAX,
        lies_at(data, at, substrings_payload(strings)),
    ensures
        substrings_at(
            data,
            at + substrings_payload(strings.take(i)).len(),
            (strings.len() - i) as nat,
            "utf-8"@,
            DecoderTrap::Strict,
        ) == Ok::<Seq<(u32, Seq<char>)>, crate::parser::Failure>(
            substrings_content(strings).skip(i),
        ),
    decreases strings.len() - i,
{
    let all = substrings_payload(strings);
    let before = substrings_payload(strings.take(i));
    let here = at + before.len();
    if i == strings.len() {
        assert(substrings_content(strings).skip(i) =~= Seq::empty());
    } else {
        let key = strings[i].key.0;
        let chars = strings[i].string@;
        let text = run_payload(encode_utf8(chars));
        let next = substrings_payload(strings.take(i + 1));
        let b = before.len() as int;
        let rest = substrings_content(strings).skip(i + 1);
        lemma_texts_grow(strings, i);
        lemma_u32_round_trip(key);
        assert(lies_at(data, at, next)) by {
            lemma_texts_prefix(strings, i + 1);
            assert(all.subrange(0, next.len() as int) =~= next);
            lemma_part_lies_at(data, at, all, 0, next);
        }
        assert(lies_at(data, here, u32_le(key))) by {
            assert(next.subrange(b, b + 4) =~= u32_le(key));
            lemma_part_lies_at(data, at, next, b, u32_le(key));
        }
        assert(lies_at(data, here + 4, text)) by {
            assert(next.subrange(b + 4, b + 4 + text.len()) =~= text);
            lemma_part_lies_at(data, at, next, b + 4, text);
        }
        lemma_number_lies_at(data, here, key);
        lemma_text_lies_at(data, here + 4, chars);
        lemma_texts_lie_at(data, at, strings, i + 1);
        lemma_texts_step(
            data,
            here,
            (strings.len() - i) as nat,
            key,
            chars,
            encode_utf8(chars).len() as u32,
            rest,
        );
        assert(seq![(key, chars)] + rest =~= substrings_content(strings).skip(i));
    }
}

/// Where a file holds the bytes of a localized string, that string is read
/// there: its string reference, and its texts with the numbers of their
/// keys.
pub proof fn lemma_loc_string_lies_at(data: Seq<u8>, at: int, value: crate::string::LocString)
    requires
        8 + substrings_payload(value.strings@).len() <= u32::MAX,
        lies_at(data, at, crate::ser::loc_string_payload(value)),
    ensures
        loc_string_at(data, at, "utf-8"@, DecoderTrap::Strict) == Ok::<
            (u32, Seq<(u32, Seq<char>)>),
            crate::parser::Failure,
        >(value.content()),
{
    let all = crate::ser::loc_string_payload(value);
    let texts = substrings_payload(value.strings@);
    let count = value.strings@.len() as u32;
    let head = u32_le((8 + texts.len()) as u32) + u32_le(value.str_ref.0) + u32_le(count);
    lemma_substrings_payload_len(value.strings@);
    lemma_u32_round_trip((8 + texts.len()) as u32);
    lemma_u32_round_trip(value.str_ref.0);
    lemma_u32_round_trip(count);
    assert(lies_at(data, at, head)) by {
        assert(all.subrange(0, 12) =~= head);
        lemma_part_lies_at(data, at, all, 0, head);
    }
    assert(lies_at(data, at + 4, u32_le(value.str_ref.0))) by {
        assert(all.subrange(4, 8) =~= u32_le(value.str_ref.0));
        lemma_part_lies_at(data, at, all, 4, u32_le(value.str_ref.0));
    }
    assert(lies_at(data, at + 8, u32_le(count))) by {
        assert(all.subrange(8, 12) =~= u32_le(count));
        lemma_part_lies_at(data, at, all, 8, u32_le(count));
    }
    assert(lies_at(data, at + 12, texts)) by {
        assert(all.subrange(12, 12 + texts.len() as int) =~= texts);
        lemma_part_lies_at(data, at, all, 12, texts);
    }
    lemma_number_lies_at(data, at + 4, value.str_ref.0);
    lemma_number_lies_at(data, at + 8, count);
    assert(bytes_at(data, at, 12) is Some);
    assert(value.strings@.take(0) =~= Seq::empty());
    lemma_texts_lie_at(data, at + 12, value.strings@, 0);
    assert(substrings_content(value.strings@).skip(0) =~= substrings_content(value.strings@));
}

/// The bytes of a value that a field holds lie in the written file where
/// the header and the field say.
pub proof fn lemma_payload_in_file(
    content: Content,
    data: Seq<u8>,
    h: Header,
    f: int,
    value: SimpleValue,
)
    requires
        content.written(data, h),
        content.holds(f, value),
        !is_inline(value),
    ensures
        lies_at(data, h.field_data.offset + content.held(f).spec_data(), payload(value)),
{
    let at = content.held(f).spec_data() as int;
    let all = content.field_data;
    let part = payload(value);
    if part.len() > 0 {
        lemma_part_at(data, h.field_data.offset as int, all, at, part);
    } else {
        assert(data.subrange(h.field_data.offset + at, h.field_data.offset + at) =~= part);
    }
}

/// What a parser that reads UTF-8 finds in a written file at the place of a
/// value that a field holds: the bytes of the value, which are read as the
/// value.
pub proof fn lemma_value_in_file(
    content: Content,
    data: Seq<u8>,
    h: Header,
    f: int,
    value: SimpleValue,
)
    requires
        content.written(data, h),
        content.holds(f, value),
        !is_inline(value),
    ensures
        ({
            let at = h.field_data.offset + content.held(f).spec_data();
            match value {
                SimpleValue::Dword64(v) => u64_at(data, at) == Some(v),
                SimpleValue::Int64(v) => u64_at(data, at) matches Some(w) && w as i64 == v,
                SimpleValue::Double(v) => u64_at(data, at) == Some(v),
                SimpleValue::String(v) => string_at(data, at, "utf-8"@, DecoderTrap::Strict)
                    == Ok::<Seq<char>, crate::parser::Failure>(v@),
                SimpleValue::ResRef(v) => short_run_at(data, at) == Some(v.bytes()),
                SimpleValue::LocString(v) => loc_string_at(
                    data,
                    at,
                    "utf-8"@,
                    DecoderTrap::Strict,
                ) == Ok::<(u32, Seq<(u32, Seq<char>)>), crate::parser::Failure>(v.content()),
                SimpleValue::Void(v) => run_at(data, at) == Some(v@),
                _ => true,
            }
        }),
{
    let at = h.field_data.offset + content.held(f).spec_data();
    let all = payload(value);
    lemma_payload_in_file(content, data, h, f, value);
    match value {
        SimpleValue::Dword64(v) => {
            lemma_u64_round_trip(v);
        },
        SimpleValue::Int64(v) => {
            lemma_u64_round_trip(v as u64);
            assert((v as u64) as i64 == v) by (bit_vector);
        },
        SimpleValue::Double(v) => {
            lemma_u64_round_trip(v);
        },
        SimpleValue::String(v) => {
            lemma_text_lies_at(data, at, v@);
        },
        SimpleValue::ResRef(v) => {
            let name = v.bytes();
            assert(all.subrange(0, 1) =~= seq![name.len() as u8]);
            assert(all.subrange(1, 1 + name.len() as int) =~= name);
            lemma_part_lies_at(data, at, all, 0, seq![name.len() as u8]);
            lemma_part_lies_at(data, at, all, 1, name);
            assert(u8_at(data, at) == Some(name.len() as u8));
            if name.len() == 0 {
                assert(name =~= Seq::empty());
            }
        },
        SimpleValue::LocString(v) => {
            lemma_loc_string_lies_at(data, at, v);
        },
        SimpleValue::Void(v) => {
            lemma_run_lies_at(data, at, v@);
        },
        _ => {},
    }
}

/// What is written is read back: where a field of a written file holds a
/// value, a parser of that file that reads UTF-8, and gives up on bytes
/// that are none, reads that value from what the token of the field holds.
pub proof fn lemma_reads_back(
    content: Content,
    f: int,
    value: SimpleValue,
    parser: Parser,
    r: Result<SimpleValue>,
)
    requires
        content.written(parser.spec_data(), parser.spec_header()),
        content.holds(f, value),
        parser.spec_encoding() == "utf-8"@,
        parser.spec_trap() is Strict,
        parser.reads(content.held(f), r),
    ensures
        r matches Ok(read) && same_value(read, value),
{
    if !is_inline(value) {
        lemma_value_in_file(content, parser.spec_data(), parser.spec_header(), f, value);
    }
}

} // verus!
