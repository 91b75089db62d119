//! The writer of GFF files.
//!
//! A file is made in two steps. First the structs, fields and lists are
//! handed to a `Serializer`, which keeps them in a form of its own. When all
//! is in, `Serializer::write` works out where everything lies and writes the
//! file.

use crate::endian::{u32_bytes, u32_le, u64_bytes, u64_le};
use crate::error::{Error, Result};
use crate::header::{Header, Section};
use crate::index::{
    BinaryIndex, F64Index, I64Index, LabelIndex, LocStringIndex, ResRefIndex, StringIndex,
    U64Index,
};
use crate::label::{padded, Label};
use crate::raw::{self, FieldType};
use crate::sig::Signature;
use crate::value::{SimpleValue, SimpleValueRef};
use crate::ver::Version;
use indexmap::IndexSet;
use std::collections::hash_map::RandomState;
use vstd::prelude::*;

pub mod labels;
pub mod layout;
pub mod tokens;
pub mod values;

use self::labels::{label_set_get, label_set_insert, label_set_items, label_set_len, label_set_new};

verus! {

/// The number of a struct among the structs of the file in the making.
#[derive(Debug, Copy, Clone, PartialEq, Eq)]
pub struct StructIndex(pub u32);

/// The number of a field list among the field lists of the file in the
/// making. Each struct with several fields has one.
#[derive(Debug, Copy, Clone, PartialEq, Eq)]
pub struct FieldListIndex(pub usize);

/// The number of a struct list among the struct lists of the file in the
/// making. Each list field has one.
#[derive(Debug, Copy, Clone, PartialEq, Eq)]
pub struct ListIndex(pub usize);

/// A struct of the file in the making. Where its fields lie in the file is
/// known only when all the file is in.
#[derive(Debug, Copy, Clone, PartialEq, Eq)]
pub enum Struct {
    /// A struct without fields.
    NoFields,
    /// A struct with one field, which has this number.
    OneField(u32),
    /// A struct with several fields.
    MultiField {
        /// The field list of the struct.
        list: FieldListIndex,
        /// The number of fields of the struct.
        fields: u32,
    },
}

/// A field of the file in the making.
#[derive(Debug, Copy, Clone, PartialEq, Eq)]
pub enum Field {
    /// A field with a value that is neither a struct nor a list.
    Simple {
        /// The label of the field.
        label: LabelIndex,
        /// The value, or its place in the field data.
        value: SimpleValueRef,
    },
    /// A field whose value is a struct.
    Struct {
        /// The label of the field.
        label: LabelIndex,
        /// The struct.
        struct_: StructIndex,
    },
    /// A field whose value is a list.
    List {
        /// The label of the field.
        label: LabelIndex,
        /// The struct list of the list.
        list: ListIndex,
    },
}

/// All that a `Serializer` holds.
pub struct Content {
    /// The structs.
    pub structs: Seq<Struct>,
    /// The fields of all structs.
    pub fields: Seq<Field>,
    /// The labels, each at the place at which it was put in first.
    pub labels: Seq<Label>,
    /// The values that do not fit into a field record.
    pub field_data: Seq<u8>,
    /// The field lists of the structs with several fields.
    pub field_indices: Seq<Seq<u32>>,
    /// The struct lists of the list fields.
    pub list_indices: Seq<Seq<u32>>,
}

/// The label with the name `name`, which has at most 16 bytes.
pub open spec fn label_named(name: Seq<u8>) -> Label {
    choose|l: Label| l.0@ == padded(name)
}

/// A label whose 16 bytes are `name`, filled up with zero bytes, is the
/// label with that name.
pub proof fn lemma_label_named(name: Seq<u8>, label: Label)
    requires
        label.0@ == padded(name),
    ensures
        label == label_named(name),
{
    assert(label_named(name).0 =~= label.0);
}

/// The words of the error that tells that something is too large for the
/// 32 bits in which a GFF file counts.
pub open spec fn too_large_text() -> Seq<char> {
    "the file does not fit the 32 bits that GFF counts in"@
}

/// Whether `e` is the error that tells that something is too large for the
/// 32 bits in which a GFF file counts.
pub open spec fn is_too_large(e: Error) -> bool {
    e matches Error::Serialize(why) && why@ == too_large_text()
}

/// The error that tells that something is too large for the 32 bits in
/// which a GFF file counts.
pub fn too_large() -> (e: Error)
    ensures
        is_too_large(e),
{
    Error::Serialize("the file does not fit the 32 bits that GFF counts in".to_owned())
}

/// `n` as a number of 32 bits, where it is one.
pub fn to_u32(n: usize) -> (r: Result<u32>)
    ensures
        match r {
            Ok(v) => v == n,
            Err(e) => n > u32::MAX && is_too_large(e),
        },
{
    if n > u32::MAX as usize {
        Err(too_large())
    } else {
        Ok(n as u32)
    }
}

/// Gathers the structs, fields and lists of a file, and writes the file when
/// all are in.
///
/// The format knows structs at its top only. Other values are written as
/// fields of a struct.
pub struct Serializer {
    /// The structs of the file.
    structs: Vec<Struct>,
    /// The fields of all structs of the file.
    fields: Vec<Field>,
    /// The labels of all fields, each once, in the order in which they came.
    labels: IndexSet<[u8; 16], RandomState>,
    /// The values that do not fit into a field record.
    field_data: Vec<u8>,
    /// The field lists: for each struct with several fields, the numbers of
    /// its fields.
    field_indices: Vec<Vec<u32>>,
    /// The struct lists: for each list field, the numbers of the structs
    /// that are its items.
    list_indices: Vec<Vec<u32>>,
}

impl View for Serializer {
    type V = Content;

    closed spec fn view(&self) -> Content {
        Content {
            structs: self.structs@,
            fields: self.fields@,
            labels: Seq::new(
                label_set_items(self.labels).len(),
                |i: int| Label(label_set_items(self.labels)[i]),
            ),
            field_data: self.field_data@,
            field_indices: Seq::new(
                self.field_indices@.len(),
                |i: int| self.field_indices@[i]@,
            ),
            list_indices: Seq::new(self.list_indices@.len(), |i: int| self.list_indices@[i]@),
        }
    }
}

impl Content {
    /// What a serializer holds before anything was handed to it.
    pub open spec fn empty() -> Content {
        Content {
            structs: Seq::empty(),
            fields: Seq::empty(),
            labels: Seq::empty(),
            field_data: Seq::empty(),
            field_indices: Seq::empty(),
            list_indices: Seq::empty(),
        }
    }

    /// The place of `label` among the labels: where it is, if it is among
    /// them, else behind them.
    pub open spec fn place_of(self, label: Label) -> int {
        if self.labels.contains(label) {
            self.labels.index_of(label)
        } else {
            self.labels.len() as int
        }
    }

    /// The content with `label` among its labels: behind the others, where
    /// it was not among them.
    pub open spec fn with_label(self, label: Label) -> Content {
        if self.labels.contains(label) {
            self
        } else {
            Content { labels: self.labels.push(label), ..self }
        }
    }

    /// The content with one more struct of `fields` fields, and with a field
    /// list for it where it has several.
    pub open spec fn with_struct(self, fields: u32) -> Content {
        if fields == 0 {
            Content { structs: self.structs.push(Struct::NoFields), ..self }
        } else if fields == 1 {
            Content { structs: self.structs.push(Struct::OneField(0)), ..self }
        } else {
            Content {
                structs: self.structs.push(
                    Struct::MultiField {
                        list: FieldListIndex(self.field_indices.len() as usize),
                        fields,
                    },
                ),
                field_indices: self.field_indices.push(Seq::empty()),
                ..self
            }
        }
    }

    /// The content with one more field.
    pub open spec fn with_field(self, field: Field) -> Content {
        Content { fields: self.fields.push(field), ..self }
    }

    /// The content with `bytes` behind its field data.
    pub open spec fn with_data(self, bytes: Seq<u8>) -> Content {
        Content { field_data: self.field_data + bytes, ..self }
    }

    /// The content with one more list field with the label `label`, and
    /// with an empty struct list for it.
    pub open spec fn with_list(self, label: LabelIndex) -> Content {
        Content {
            fields: self.fields.push(
                Field::List { label, list: ListIndex(self.list_indices.len() as usize) },
            ),
            list_indices: self.list_indices.push(Seq::empty()),
            ..self
        }
    }

    /// The content in which the struct `struct_index` knows of its field
    /// `field`: a struct with one field holds the number of the field, and
    /// a struct with several has it at the end of its field list, which is
    /// the list `fields_index`.
    pub open spec fn with_field_of(
        self,
        struct_index: StructIndex,
        fields_index: FieldListIndex,
        field: u32,
    ) -> Content {
        match self.structs[struct_index.0 as int] {
            Struct::NoFields => self,
            Struct::OneField(_) => Content {
                structs: self.structs.update(struct_index.0 as int, Struct::OneField(field)),
                ..self
            },
            Struct::MultiField { .. } => Content {
                field_indices: self.field_indices.update(
                    fields_index.0 as int,
                    self.field_indices[fields_index.0 as int].push(field),
                ),
                ..self
            },
        }
    }

    /// The content in which the struct list `list` has the struct that
    /// comes next at its end.
    pub open spec fn with_item(self, list: ListIndex) -> Content {
        Content {
            list_indices: self.list_indices.update(
                list.0 as int,
                self.list_indices[list.0 as int].push(self.structs.len() as u32),
            ),
            ..self
        }
    }
}

impl Default for Serializer {
    /// A serializer that holds nothing.
    fn default() -> (s: Serializer)
        ensures
            s.wf(),
            s@ == Content::empty(),
    {
        Serializer::new()
    }
}

impl Content {
    /// Whether the content is sound: each struct with several fields has
    /// its field list, each list field has its struct list, and no label
    /// is held twice.
    pub open spec fn wf(self) -> bool {
        &&& forall|i: int|
            0 <= i < self.structs.len() ==> (#[trigger] self.structs[i] matches Struct::MultiField {
                list,
                ..
            } ==> list.0 < self.field_indices.len())
        &&& forall|i: int|
            0 <= i < self.fields.len() ==> (#[trigger] self.fields[i] matches Field::List {
                list,
                ..
            } ==> list.0 < self.list_indices.len())
        &&& self.labels.no_duplicates()
    }
}

impl Serializer {
    /// Whether what the serializer holds is sound.
    pub closed spec fn wf(&self) -> bool {
        self@.wf() && label_set_items(self.labels).no_duplicates()
    }

    /// What a sound serializer holds is sound.
    pub proof fn lemma_sound(&self)
        requires
            self.wf(),
        ensures
            self@.wf(),
    {
    }

    /// A serializer that holds nothing.
    pub fn new() -> (s: Serializer)
        ensures
            s.wf(),
            s@ == Content::empty(),
    {
        let s = Serializer {
            structs: Vec::new(),
            fields: Vec::new(),
            labels: label_set_new(),
            field_data: Vec::new(),
            field_indices: Vec::new(),
            list_indices: Vec::new(),
        };
        assert(s@.labels =~= Seq::empty());
        assert(s@.field_indices =~= Seq::empty());
        assert(s@.list_indices =~= Seq::empty());
        s
    }

    /// Puts `label` among the labels of the file, where it is not among
    /// them yet, and gives its number: a label that came before has the
    /// number that it got then.
    pub fn intern(&mut self, label: Label) -> (r: Result<LabelIndex>)
        requires
            old(self).wf(),
        ensures
            final(self).wf(),
            match r {
                Ok(index) => old(self)@.labels.len() <= u32::MAX && old(self)@.place_of(label)
                    == index.0 && final(self)@ == old(self)@.with_label(label),
                Err(e) => final(self)@ == old(self)@ && is_too_large(e) && old(self)@.labels.len()
                    > u32::MAX,
            },
    {
        if label_set_len(&self.labels) > u32::MAX as usize {
            return Err(too_large());
        }
        let ghost before = label_set_items(self.labels);
        let (index, _) = label_set_insert(&mut self.labels, label.0);
        proof {
            let after = label_set_items(self.labels);
            assert(old(self)@.labels.contains(label) <==> before.contains(label.0)) by {
                if before.contains(label.0) {
                    let i = choose|i: int| 0 <= i < before.len() && before[i] == label.0;
                    assert(old(self)@.labels[i] == label);
                }
                if old(self)@.labels.contains(label) {
                    let i = choose|i: int|
                        0 <= i < old(self)@.labels.len() && old(self)@.labels[i] == label;
                    assert(before[i] == label.0);
                }
            }
            if before.contains(label.0) {
                assert(old(self)@.labels[index as int] == label);
                assert(old(self)@.labels.no_duplicates()) by {
                    assert forall|i: int, j: int|
                        0 <= i < before.len() && 0 <= j < before.len() && i != j implies old(
                        self,
                    )@.labels[i] != old(self)@.labels[j] by {
                        assert(before[i] != before[j]);
                    }
                }
                old(self)@.labels.index_of_first_ensures(label);
                assert(old(self)@.labels.index_of(label) == index);
                assert(self@.labels =~= old(self)@.labels);
                assert(self@.field_indices =~= old(self)@.field_indices);
                assert(self@.list_indices =~= old(self)@.list_indices);
            } else {
                assert(self@.labels =~= old(self)@.labels.push(label));
                assert(self@.field_indices =~= old(self)@.field_indices);
                assert(self@.list_indices =~= old(self)@.list_indices);
                assert(after.no_duplicates());
            }
        }
        Ok(LabelIndex(index as u32))
    }

    /// Puts the label with the name `label` among the labels of the file,
    /// where it is not among them yet, and gives its number. A name of more
    /// than 16 bytes in UTF-8 is refused.
    pub fn add_label(&mut self, label: &str) -> (r: Result<LabelIndex>)
        requires
            old(self).wf(),
        ensures
            final(self).wf(),
            match r {
                Ok(index) => {
                    let name = vstd::utf8::encode_utf8(label@);
                    &&& name.len() <= 16
                    &&& old(self)@.labels.len() <= u32::MAX
                    &&& old(self)@.place_of(label_named(name)) == index.0
                    &&& final(self)@ == old(self)@.with_label(label_named(name))
                },
                Err(e) => final(self)@ == old(self)@ && if vstd::utf8::encode_utf8(label@).len()
                    > 16 {
                    e == Error::TooLongLabel(vstd::utf8::encode_utf8(label@).len() as usize)
                } else {
                    is_too_large(e) && old(self)@.labels.len() > u32::MAX
                },
            },
    {
        let ghost name = vstd::utf8::encode_utf8(label@);
        let label = Label::from_bytes(label.as_bytes())?;
        proof {
            lemma_label_named(name, label);
        }
        self.intern(label)
    }

    /// Adds a struct of `fields` fields to the structs of the file. Where
    /// the struct has fields, they are made known to it as they come, with
    /// `StructSerializer::end_field`.
    ///
    /// Gives the number of the struct, and the number of the field list that
    /// is its own where it has several fields.
    pub fn add_struct(&mut self, fields: usize) -> (r: Result<(StructIndex, FieldListIndex)>)
        requires
            old(self).wf(),
        ensures
            final(self).wf(),
            match r {
                Ok((index, list)) => fields <= u32::MAX && index.0 == old(self)@.structs.len()
                    && list.0 == old(self)@.field_indices.len() && final(self)@ == old(
                    self,
                )@.with_struct(fields as u32),
                Err(e) => final(self)@ == old(self)@ && is_too_large(e) && (fields > u32::MAX
                    || old(self)@.structs.len() > u32::MAX),
            },
    {
        let count = to_u32(fields)?;
        let index = StructIndex(to_u32(self.structs.len())?);
        let list = FieldListIndex(self.field_indices.len());
        match count {
            0 => self.structs.push(Struct::NoFields),
            // the number of the field is put in when the field has come
            1 => self.structs.push(Struct::OneField(0)),
            _ => {
                self.field_indices.push(Vec::new());
                self.structs.push(Struct::MultiField { list, fields: count })
            },
        }
        proof {
            let now = old(self)@.with_struct(count);
            assert(self@.labels =~= now.labels);
            assert(self@.field_indices =~= now.field_indices);
            assert(self@.list_indices =~= now.list_indices);
        }
        Ok((index, list))
    }

    /// Adds a list field with the label `label` to the fields of the file,
    /// and a struct list for its items. Gives the number of that list.
    pub fn add_list(&mut self, label: LabelIndex, len: usize) -> (list: ListIndex)
        requires
            old(self).wf(),
        ensures
            final(self).wf(),
            list.0 == old(self)@.list_indices.len(),
            final(self)@ == old(self)@.with_list(label),
    {
        let list = ListIndex(self.list_indices.len());
        self.list_indices.push(Vec::new());
        self.fields.push(Field::List { label, list });
        proof {
            let now = old(self)@.with_list(label);
            assert(self@.labels =~= now.labels);
            assert(self@.field_indices =~= now.field_indices);
            assert(self@.list_indices =~= now.list_indices);
        }
        list
    }

    /// Adds a field to the fields of the file.
    fn add_field(&mut self, field: Field)
        requires
            old(self).wf(),
            field matches Field::List { list, .. } ==> list.0 < old(self)@.list_indices.len(),
        ensures
            final(self).wf(),
            final(self)@ == old(self)@.with_field(field),
    {
        self.fields.push(field);
        proof {
            let now = old(self)@.with_field(field);
            assert(self@.labels =~= now.labels);
            assert(self@.field_indices =~= now.field_indices);
            assert(self@.list_indices =~= now.list_indices);
        }
    }

    /// Puts `bytes` behind the field data, and gives the offset at which
    /// they lie.
    fn add_data(&mut self, bytes: &[u8]) -> (r: Result<u32>)
        requires
            old(self).wf(),
        ensures
            final(self).wf(),
            match r {
                Ok(offset) => offset == old(self)@.field_data.len() && final(self)@ == old(
                    self,
                )@.with_data(bytes@),
                Err(e) => final(self)@ == old(self)@ && is_too_large(e) && old(
                    self,
                )@.field_data.len() > u32::MAX,
            },
    {
        let offset = to_u32(self.field_data.len())?;
        self.field_data.extend_from_slice(bytes);
        proof {
            let now = old(self)@.with_data(bytes@);
            assert(self@.field_data =~= now.field_data);
            assert(self@.labels =~= now.labels);
            assert(self@.field_indices =~= now.field_indices);
            assert(self@.list_indices =~= now.list_indices);
        }
        Ok(offset)
    }

    /// Begins the struct at the top of the file, or a struct that is an
    /// item of a list, with `len` fields.
    pub fn serialize_struct(&mut self, len: usize) -> (r: Result<StructSerializer>)
        requires
            old(self).wf(),
        ensures
            final(self).wf(),
            match r {
                Ok(s) => len <= u32::MAX && s.struct_index.0 == old(self)@.structs.len()
                    && s.fields_index.0 == old(self)@.field_indices.len() && final(self)@ == old(
                    self,
                )@.with_struct(len as u32) && s.fits(final(self)@),
                Err(e) => final(self)@ == old(self)@ && is_too_large(e) && (len > u32::MAX || old(
                    self,
                )@.structs.len() > u32::MAX),
            },
    {
        let (struct_index, fields_index) = self.add_struct(len)?;
        Ok(StructSerializer { struct_index, fields_index })
    }

    /// Writes a struct without fields: the form of a value that is nothing.
    pub fn serialize_unit(&mut self) -> (r: Result<()>)
        requires
            old(self).wf(),
        ensures
            final(self).wf(),
            match r {
                Ok(_) => final(self)@ == old(self)@.with_struct(0),
                Err(e) => final(self)@ == old(self)@ && is_too_large(e) && old(
                    self,
                )@.structs.len() > u32::MAX,
            },
    {
        self.add_struct(0)?;
        Ok(())
    }
}

/// A struct of the file in the making whose fields are handed in.
#[derive(Debug, Copy, Clone, PartialEq, Eq)]
pub struct StructSerializer {
    /// The number of the struct, which learns of each field as it comes.
    pub struct_index: StructIndex,
    /// The number of the field list of the struct, where it has several
    /// fields.
    pub fields_index: FieldListIndex,
}

/// A field of the file in the making whose value is handed in.
#[derive(Debug, Copy, Clone, PartialEq, Eq)]
pub struct FieldSerializer {
    /// The number of the label of the field.
    pub label: LabelIndex,
    /// The number that the field has among the fields of the file.
    pub index: u32,
}

/// A list of the file in the making whose items are handed in.
#[derive(Debug, Copy, Clone, PartialEq, Eq)]
pub struct ListSerializer {
    /// The number of the struct list that learns of each item as it comes.
    pub list_index: ListIndex,
}

impl StructSerializer {
    /// Whether this stands for a struct of `content`, with the field list
    /// that is its own.
    pub open spec fn fits(self, content: Content) -> bool {
        &&& self.struct_index.0 < content.structs.len()
        &&& content.structs[self.struct_index.0 as int] matches Struct::MultiField { list, .. }
            ==> list == self.fields_index
    }

    /// Whether this stands for a struct of `ser`, with the field list that
    /// is its own.
    pub fn belongs_to(&self, ser: &Serializer) -> (b: bool)
        ensures
            b == self.fits(ser@),
    {
        let at = self.struct_index.0 as usize;
        if at >= ser.structs.len() {
            return false;
        }
        match ser.structs[at] {
            Struct::MultiField { list, .. } => list.0 == self.fields_index.0,
            _ => true,
        }
    }

    /// Begins a field of the struct with the label `key`: puts the label
    /// among the labels of the file and gives what the value of the field
    /// is handed to. When the value is in, `end_field` makes the field
    /// known to the struct.
    pub fn begin_field(&self, ser: &mut Serializer, key: &str) -> (r: Result<FieldSerializer>)
        requires
            old(ser).wf(),
        ensures
            final(ser).wf(),
            final(ser)@.structs == old(ser)@.structs,
            final(ser)@.fields == old(ser)@.fields,
            final(ser)@.field_data == old(ser)@.field_data,
            final(ser)@.field_indices == old(ser)@.field_indices,
            final(ser)@.list_indices == old(ser)@.list_indices,
            match r {
                Ok(field) => {
                    let name = vstd::utf8::encode_utf8(key@);
                    &&& name.len() <= 16
                    &&& old(ser)@.labels.len() <= u32::MAX
                    &&& field.index == old(ser)@.fields.len()
                    &&& field.label.0 == old(ser)@.place_of(label_named(name))
                    &&& final(ser)@ == old(ser)@.with_label(label_named(name))
                },
                Err(e) => final(ser)@ == old(ser)@ && if vstd::utf8::encode_utf8(key@).len() > 16 {
                    e == Error::TooLongLabel(vstd::utf8::encode_utf8(key@).len() as usize)
                } else {
                    is_too_large(e) && (old(ser)@.labels.len() > u32::MAX || old(
                        ser,
                    )@.fields.len() > u32::MAX)
                },
            },
    {
        if key.as_bytes().len() <= 16 && ser.fields.len() > u32::MAX as usize {
            return Err(too_large());
        }
        let label = ser.add_label(key)?;
        let index = ser.fields.len() as u32;
        Ok(FieldSerializer { label, index })
    }

    /// Makes the field with the number `field` known to the struct: a
    /// struct with one field holds the number of the field, and a struct
    /// with several has it at the end of its field list.
    pub fn end_field(&self, ser: &mut Serializer, field: u32)
        requires
            old(ser).wf(),
            self.fits(old(ser)@),
        ensures
            final(ser).wf(),
            final(ser)@ == old(ser)@.with_field_of(self.struct_index, self.fields_index, field),
            self.fits(final(ser)@),
    {
        let at = self.struct_index.0 as usize;
        match ser.structs[at] {
            Struct::NoFields => {},
            Struct::OneField(_) => {
                ser.structs[at] = Struct::OneField(field);
            },
            Struct::MultiField { .. } => {
                ser.field_indices[self.fields_index.0].push(field);
            },
        }
        proof {
            let now = old(ser)@.with_field_of(self.struct_index, self.fields_index, field);
            assert(ser@.labels =~= now.labels);
            assert(ser@.field_indices =~= now.field_indices);
            assert(ser@.list_indices =~= now.list_indices);
            assert(ser@.structs =~= now.structs);
        }
    }

    /// Ends the struct. There is nothing left to do.
    pub fn end(self) {
    }
}

/// The bytes that the field data hold for a text or a run of bytes: the
/// length, as a number of four bytes, and the bytes.
pub open spec fn run_payload(bytes: Seq<u8>) -> Seq<u8> {
    u32_le(bytes.len() as u32) + bytes
}

/// The bytes that the field data hold for the name of a resource: the
/// length, as one byte, and the bytes.
pub open spec fn resref_payload(bytes: Seq<u8>) -> Seq<u8> {
    seq![bytes.len() as u8] + bytes
}

/// The bytes that the field data hold for the texts of a localized string:
/// for each the number of its key, and the text as a run of bytes in UTF-8.
pub open spec fn substrings_payload(strings: Seq<crate::string::SubString>) -> Seq<u8>
    decreases strings.len(),
{
    if strings.len() == 0 {
        Seq::empty()
    } else {
        substrings_payload(strings.drop_last()) + u32_le(strings.last().key.0) + run_payload(
            vstd::utf8::encode_utf8(strings.last().string@),
        )
    }
}

/// The bytes that the field data hold for a localized string: the number of
/// the bytes that follow, the string reference, the number of texts, and the
/// texts.
pub open spec fn loc_string_payload(value: crate::string::LocString) -> Seq<u8> {
    let texts = substrings_payload(value.strings@);
    u32_le((8 + texts.len()) as u32) + u32_le(value.str_ref.0) + u32_le(
        value.strings@.len() as u32,
    ) + texts
}

/// The bytes that the field data hold for `value`: none for a value that
/// fits into the field record.
pub open spec fn payload(value: SimpleValue) -> Seq<u8> {
    match value {
        SimpleValue::Dword64(v) => u64_le(v),
        SimpleValue::Int64(v) => u64_le(v as u64),
        SimpleValue::Double(v) => u64_le(v),
        SimpleValue::String(v) => run_payload(vstd::utf8::encode_utf8(v@)),
        SimpleValue::ResRef(v) => resref_payload(v.bytes()),
        SimpleValue::LocString(v) => loc_string_payload(v),
        SimpleValue::Void(v) => run_payload(v@),
        _ => Seq::empty(),
    }
}

/// What the field record holds for `value`, where the bytes of a value that
/// does not fit into it lie at `offset` in the field data.
pub open spec fn value_ref(value: SimpleValue, offset: u32) -> SimpleValueRef {
    match value {
        SimpleValue::Byte(v) => SimpleValueRef::Byte(v),
        SimpleValue::Char(v) => SimpleValueRef::Char(v),
        SimpleValue::Word(v) => SimpleValueRef::Word(v),
        SimpleValue::Short(v) => SimpleValueRef::Short(v),
        SimpleValue::Dword(v) => SimpleValueRef::Dword(v),
        SimpleValue::Int(v) => SimpleValueRef::Int(v),
        SimpleValue::Float(v) => SimpleValueRef::Float(v),
        SimpleValue::Dword64(_) => SimpleValueRef::Dword64(U64Index(offset)),
        SimpleValue::Int64(_) => SimpleValueRef::Int64(I64Index(offset)),
        SimpleValue::Double(_) => SimpleValueRef::Double(F64Index(offset)),
        SimpleValue::String(_) => SimpleValueRef::String(StringIndex(offset)),
        SimpleValue::ResRef(_) => SimpleValueRef::ResRef(ResRefIndex(offset)),
        SimpleValue::LocString(_) => SimpleValueRef::LocString(LocStringIndex(offset)),
        SimpleValue::Void(_) => SimpleValueRef::Void(BinaryIndex(offset)),
    }
}

/// Whether `value` lies in the field record itself.
pub open spec fn is_inline(value: SimpleValue) -> bool {
    value is Byte || value is Char || value is Word || value is Short || value is Dword
        || value is Int || value is Float
}

/// Whether `value` can be written: the name of a resource has at most 255
/// bytes, and every other length fits 32 bits.
pub open spec fn writable(value: SimpleValue) -> bool {
    match value {
        SimpleValue::String(v) => vstd::utf8::encode_utf8(v@).len() <= u32::MAX,
        SimpleValue::ResRef(v) => v.bytes().len() <= 255,
        SimpleValue::LocString(v) => 8 + substrings_payload(v.strings@).len() <= u32::MAX,
        SimpleValue::Void(v) => v@.len() <= u32::MAX,
        _ => true,
    }
}

/// The words of the error that tells that the name of a resource is too
/// long.
pub open spec fn long_resref_text() -> Seq<char> {
    "the name of a resource holds at most 255 bytes"@
}

/// Whether `e` is the error that tells that the name of a resource is too
/// long.
pub open spec fn is_long_resref(e: Error) -> bool {
    e matches Error::Serialize(why) && why@ == long_resref_text()
}

/// Whether `e` is the error that a value that cannot be written gives: the
/// one for the name of a resource that is too long, or the one for a length
/// that does not fit 32 bits.
pub open spec fn tells_unwritable(e: Error, value: SimpleValue) -> bool {
    if value is ResRef {
        is_long_resref(e)
    } else {
        is_too_large(e)
    }
}

/// Appends the four bytes of `n` to `out`.
pub fn put_u32(out: &mut Vec<u8>, n: u32)
    ensures
        final(out)@ == old(out)@ + u32_le(n),
{
    let bytes = u32_bytes(n);
    out.extend_from_slice(bytes.as_slice());
}

/// The bytes that the field data hold for a text or a run of bytes.
pub fn run_bytes(bytes: &[u8]) -> (r: Result<Vec<u8>>)
    ensures
        match r {
            Ok(out) => bytes@.len() <= u32::MAX && out@ == run_payload(bytes@),
            Err(e) => bytes@.len() > u32::MAX && is_too_large(e),
        },
{
    let len = to_u32(bytes.len())?;
    let mut out: Vec<u8> = Vec::new();
    put_u32(&mut out, len);
    out.extend_from_slice(bytes);
    assert(out@ =~= run_payload(bytes@));
    Ok(out)
}

/// The bytes that the field data hold for the name of a resource.
pub fn resref_bytes(name: &crate::resref::ResRef) -> (r: Result<Vec<u8>>)
    ensures
        match r {
            Ok(out) => name.bytes().len() <= 255 && out@ == resref_payload(name.bytes()),
            Err(e) => name.bytes().len() > 255 && is_long_resref(e),
        },
{
    if name.0.len() > 255 {
        return Err(
            Error::Serialize("the name of a resource holds at most 255 bytes".to_owned()),
        );
    }
    let mut out: Vec<u8> = Vec::new();
    out.push(name.0.len() as u8);
    out.extend_from_slice(name.0.as_slice());
    assert(out@ =~= resref_payload(name.bytes()));
    Ok(out)
}

/// The bytes that the field data hold for a localized string.
pub fn loc_string_bytes(value: &crate::string::LocString) -> (r: Result<Vec<u8>>)
    ensures
        match r {
            Ok(out) => 8 + substrings_payload(value.strings@).len() <= u32::MAX && out@
                == loc_string_payload(*value),
            Err(e) => 8 + substrings_payload(value.strings@).len() > u32::MAX && is_too_large(e),
        },
{
    let mut texts: Vec<u8> = Vec::new();
    let mut i: usize = 0;
    while i < value.strings.len()
        invariant
            i <= value.strings@.len(),
            texts@ == substrings_payload(value.strings@.take(i as int)),
            texts@.len() <= u32::MAX - 8,
        decreases value.strings@.len() - i,
    {
        let text = value.strings[i].string.as_str().as_bytes();
        proof {
            lemma_substrings_payload_grows(value.strings@, i as int);
            assert(value.strings@.take(i + 1).drop_last() =~= value.strings@.take(i as int));
        }
        let len = to_u32(text.len())?;
        if texts.len() > (u32::MAX - 16) as usize || text.len() > (u32::MAX - 16) as usize
            - texts.len() {
            return Err(too_large());
        }
        put_u32(&mut texts, value.strings[i].key.0);
        put_u32(&mut texts, len);
        texts.extend_from_slice(text);
        assert(texts@ =~= substrings_payload(value.strings@.take(i + 1)));
        i += 1;
    }
    assert(value.strings@.take(i as int) =~= value.strings@);
    let mut out: Vec<u8> = Vec::new();
    put_u32(&mut out, 8 + texts.len() as u32);
    put_u32(&mut out, value.str_ref.0);
    put_u32(&mut out, value.strings.len() as u32);
    out.extend_from_slice(texts.as_slice());
    assert(out@ =~= loc_string_payload(*value));
    Ok(out)
}

/// The bytes of the first texts of a localized string are a part of the
/// bytes of all of them, and each text takes its own bytes and eight more.
pub proof fn lemma_substrings_payload_grows(strings: Seq<crate::string::SubString>, i: int)
    requires
        0 <= i < strings.len(),
    ensures
        substrings_payload(strings.take(i + 1)).len() == substrings_payload(
            strings.take(i),
        ).len() + 8 + vstd::utf8::encode_utf8(strings[i].string@).len(),
        substrings_payload(strings.take(i + 1)).len() <= substrings_payload(strings).len(),
        strings.len() <= substrings_payload(strings).len(),
    decreases strings.len() - i,
{
    assert(strings.take(i + 1).drop_last() =~= strings.take(i));
    assert(strings.take(i + 1).last() == strings[i]);
    if i + 1 < strings.len() {
        lemma_substrings_payload_grows(strings, i + 1);
    } else {
        assert(strings.take(i + 1) =~= strings);
    }
    lemma_substrings_payload_len(strings);
}

/// The texts of a localized string take at least eight bytes each.
pub proof fn lemma_substrings_payload_len(strings: Seq<crate::string::SubString>)
    ensures
        8 * strings.len() <= substrings_payload(strings).len(),
    decreases strings.len(),
{
    if strings.len() > 0 {
        lemma_substrings_payload_len(strings.drop_last());
    }
}

impl FieldSerializer {
    /// Adds the field with a value that the field record holds.
    fn push(self, ser: &mut Serializer, value: SimpleValueRef)
        requires
            old(ser).wf(),
        ensures
            final(ser).wf(),
            final(ser)@ == old(ser)@.with_field(Field::Simple { label: self.label, value }),
    {
        ser.add_field(Field::Simple { label: self.label, value });
    }

    /// Whether `value` can be written as the value of a field with a
    /// serializer that holds `before`.
    pub open spec fn can_write(before: Content, value: SimpleValue) -> bool {
        writable(value) && (is_inline(value) || before.field_data.len() <= u32::MAX)
    }

    /// What a serializer that held `before` holds when `value` was written
    /// as the value of this field.
    pub open spec fn written(self, before: Content, value: SimpleValue) -> Content {
        before.with_data(payload(value)).with_field(
            Field::Simple {
                label: self.label,
                value: value_ref(value, before.field_data.len() as u32),
            },
        )
    }

    /// Whether `r` and `after` are what writing `value` as the value of
    /// this field gives with a serializer that holds `before`.
    pub open spec fn writes(
        self,
        before: Content,
        value: SimpleValue,
        after: Content,
        r: Result<()>,
    ) -> bool {
        if FieldSerializer::can_write(before, value) {
            r is Ok && after == self.written(before, value)
        } else {
            r matches Err(e) && after == before && if writable(value) {
                is_too_large(e)
            } else {
                tells_unwritable(e, value)
            }
        }
    }

    /// Writes `value` as the value of the field: into the field record
    /// where it fits, else behind the field data, with its offset there in
    /// the field record.
    pub fn serialize_value(self, ser: &mut Serializer, value: &SimpleValue) -> (r: Result<()>)
        requires
            old(ser).wf(),
        ensures
            final(ser).wf(),
            self.writes(old(ser)@, *value, final(ser)@, r),
    {
        match value {
            SimpleValue::Byte(v) => {
                self.push(ser, SimpleValueRef::Byte(*v));
                Ok(())
            },
            SimpleValue::Char(v) => {
                self.push(ser, SimpleValueRef::Char(*v));
                Ok(())
            },
            SimpleValue::Word(v) => {
                self.push(ser, SimpleValueRef::Word(*v));
                Ok(())
            },
            SimpleValue::Short(v) => {
                self.push(ser, SimpleValueRef::Short(*v));
                Ok(())
            },
            SimpleValue::Dword(v) => {
                self.push(ser, SimpleValueRef::Dword(*v));
                Ok(())
            },
            SimpleValue::Int(v) => {
                self.push(ser, SimpleValueRef::Int(*v));
                Ok(())
            },
            SimpleValue::Float(v) => {
                self.push(ser, SimpleValueRef::Float(*v));
                Ok(())
            },
            SimpleValue::Dword64(v) => {
                let bytes = u64_bytes(*v);
                let offset = ser.add_data(bytes.as_slice())?;
                self.push(ser, SimpleValueRef::Dword64(U64Index(offset)));
                Ok(())
            },
            SimpleValue::Int64(v) => {
                let bytes = u64_bytes(*v as u64);
                let offset = ser.add_data(bytes.as_slice())?;
                self.push(ser, SimpleValueRef::Int64(I64Index(offset)));
                Ok(())
            },
            SimpleValue::Double(v) => {
                let bytes = u64_bytes(*v);
                let offset = ser.add_data(bytes.as_slice())?;
                self.push(ser, SimpleValueRef::Double(F64Index(offset)));
                Ok(())
            },
            SimpleValue::String(v) => self.serialize_str(ser, v.as_str()),
            SimpleValue::ResRef(v) => {
                let bytes = resref_bytes(v)?;
                let offset = ser.add_data(bytes.as_slice())?;
                self.push(ser, SimpleValueRef::ResRef(ResRefIndex(offset)));
                Ok(())
            },
            SimpleValue::LocString(v) => {
                let bytes = loc_string_bytes(v)?;
                let offset = ser.add_data(bytes.as_slice())?;
                self.push(ser, SimpleValueRef::LocString(LocStringIndex(offset)));
                Ok(())
            },
            SimpleValue::Void(v) => self.serialize_bytes(ser, v.as_slice()),
        }
    }

    /// Writes an unsigned number of one byte as the value of the field.
    pub fn serialize_u8(self, ser: &mut Serializer, v: u8)
        requires
            old(ser).wf(),
        ensures
            final(ser).wf(),
            final(ser)@ == old(ser)@.with_field(
                Field::Simple { label: self.label, value: SimpleValueRef::Byte(v) },
            ),
    {
        self.push(ser, SimpleValueRef::Byte(v));
    }

    /// Writes a signed number of one byte as the value of the field.
    pub fn serialize_i8(self, ser: &mut Serializer, v: i8)
        requires
            old(ser).wf(),
        ensures
            final(ser).wf(),
            final(ser)@ == old(ser)@.with_field(
                Field::Simple { label: self.label, value: SimpleValueRef::Char(v) },
            ),
    {
        self.push(ser, SimpleValueRef::Char(v));
    }

    /// Writes an unsigned number of two bytes as the value of the field.
    pub fn serialize_u16(self, ser: &mut Serializer, v: u16)
        requires
            old(ser).wf(),
        ensures
            final(ser).wf(),
            final(ser)@ == old(ser)@.with_field(
                Field::Simple { label: self.label, value: SimpleValueRef::Word(v) },
            ),
    {
        self.push(ser, SimpleValueRef::Word(v));
    }

    /// Writes a signed number of two bytes as the value of the field.
    pub fn serialize_i16(self, ser: &mut Serializer, v: i16)
        requires
            old(ser).wf(),
        ensures
            final(ser).wf(),
            final(ser)@ == old(ser)@.with_field(
                Field::Simple { label: self.label, value: SimpleValueRef::Short(v) },
            ),
    {
        self.push(ser, SimpleValueRef::Short(v));
    }

    /// Writes an unsigned number of four bytes as the value of the field.
    pub fn serialize_u32(self, ser: &mut Serializer, v: u32)
        requires
            old(ser).wf(),
        ensures
            final(ser).wf(),
            final(ser)@ == old(ser)@.with_field(
                Field::Simple { label: self.label, value: SimpleValueRef::Dword(v) },
            ),
    {
        self.push(ser, SimpleValueRef::Dword(v));
    }

    /// Writes a signed number of four bytes as the value of the field.
    pub fn serialize_i32(self, ser: &mut Serializer, v: i32)
        requires
            old(ser).wf(),
        ensures
            final(ser).wf(),
            final(ser)@ == old(ser)@.with_field(
                Field::Simple { label: self.label, value: SimpleValueRef::Int(v) },
            ),
    {
        self.push(ser, SimpleValueRef::Int(v));
    }

    /// Writes the floating-point number of four bytes with the bits `bits`
    /// as the value of the field.
    pub fn serialize_f32(self, ser: &mut Serializer, bits: u32)
        requires
            old(ser).wf(),
        ensures
            final(ser).wf(),
            final(ser)@ == old(ser)@.with_field(
                Field::Simple { label: self.label, value: SimpleValueRef::Float(bits) },
            ),
    {
        self.push(ser, SimpleValueRef::Float(bits));
    }

    /// Writes a truth value as the value of the field. The format has no
    /// type for it: it is written as a `Byte`, 1 for true and 0 for false.
    pub fn serialize_bool(self, ser: &mut Serializer, v: bool)
        requires
            old(ser).wf(),
        ensures
            final(ser).wf(),
            final(ser)@ == old(ser)@.with_field(
                Field::Simple {
                    label: self.label,
                    value: SimpleValueRef::Byte(
                        if v {
                            1u8
                        } else {
                            0u8
                        },
                    ),
                },
            ),
    {
        self.serialize_u8(
            ser,
            if v {
                1
            } else {
                0
            },
        );
    }

    /// Writes an unsigned number of eight bytes as the value of the field.
    pub fn serialize_u64(self, ser: &mut Serializer, v: u64) -> (r: Result<()>)
        requires
            old(ser).wf(),
        ensures
            final(ser).wf(),
            self.writes(old(ser)@, SimpleValue::Dword64(v), final(ser)@, r),
    {
        let bytes = u64_bytes(v);
        let offset = ser.add_data(bytes.as_slice())?;
        self.push(ser, SimpleValueRef::Dword64(U64Index(offset)));
        Ok(())
    }

    /// Writes a signed number of eight bytes as the value of the field.
    pub fn serialize_i64(self, ser: &mut Serializer, v: i64) -> (r: Result<()>)
        requires
            old(ser).wf(),
        ensures
            final(ser).wf(),
            self.writes(old(ser)@, SimpleValue::Int64(v), final(ser)@, r),
    {
        let bytes = u64_bytes(v as u64);
        let offset = ser.add_data(bytes.as_slice())?;
        self.push(ser, SimpleValueRef::Int64(I64Index(offset)));
        Ok(())
    }

    /// Writes the floating-point number of eight bytes with the bits `bits`
    /// as the value of the field.
    pub fn serialize_f64(self, ser: &mut Serializer, bits: u64) -> (r: Result<()>)
        requires
            old(ser).wf(),
        ensures
            final(ser).wf(),
            self.writes(old(ser)@, SimpleValue::Double(bits), final(ser)@, r),
    {
        let bytes = u64_bytes(bits);
        let offset = ser.add_data(bytes.as_slice())?;
        self.push(ser, SimpleValueRef::Double(F64Index(offset)));
        Ok(())
    }

    /// Whether `r` and `after` are what writing the run of bytes `bytes` as
    /// the value of this field gives with a serializer that holds `before`;
    /// `value` is what the field record holds for bytes at an offset.
    pub open spec fn writes_run(
        self,
        before: Content,
        bytes: Seq<u8>,
        value: spec_fn(u32) -> SimpleValueRef,
        after: Content,
        r: Result<()>,
    ) -> bool {
        if bytes.len() > u32::MAX || before.field_data.len() > u32::MAX {
            r matches Err(e) && is_too_large(e) && after == before
        } else {
            r is Ok && after == before.with_data(run_payload(bytes)).with_field(
                Field::Simple {
                    label: self.label,
                    value: value(before.field_data.len() as u32),
                },
            )
        }
    }

    /// Writes a text as the value of the field, in UTF-8.
    pub fn serialize_str(self, ser: &mut Serializer, v: &str) -> (r: Result<()>)
        requires
            old(ser).wf(),
        ensures
            final(ser).wf(),
            self.writes_run(
                old(ser)@,
                vstd::utf8::encode_utf8(v@),
                |offset: u32| SimpleValueRef::String(StringIndex(offset)),
                final(ser)@,
                r,
            ),
    {
        let bytes = run_bytes(v.as_bytes())?;
        let offset = ser.add_data(bytes.as_slice())?;
        self.push(ser, SimpleValueRef::String(StringIndex(offset)));
        Ok(())
    }

    /// Writes a run of bytes as the value of the field.
    pub fn serialize_bytes(self, ser: &mut Serializer, v: &[u8]) -> (r: Result<()>)
        requires
            old(ser).wf(),
        ensures
            final(ser).wf(),
            self.writes_run(
                old(ser)@,
                v@,
                |offset: u32| SimpleValueRef::Void(BinaryIndex(offset)),
                final(ser)@,
                r,
            ),
    {
        let bytes = run_bytes(v)?;
        let offset = ser.add_data(bytes.as_slice())?;
        self.push(ser, SimpleValueRef::Void(BinaryIndex(offset)));
        Ok(())
    }

    /// Whether `r`, `s` and `after` are what beginning a struct of `len`
    /// fields as the value of this field gives with a serializer that holds
    /// `before`.
    pub open spec fn begins_struct(
        self,
        before: Content,
        len: usize,
        after: Content,
        r: Result<StructSerializer>,
    ) -> bool {
        match r {
            Ok(s) => len <= u32::MAX && s.struct_index.0 == before.structs.len()
                && s.fields_index.0 == before.field_indices.len() && after == before.with_struct(
                len as u32,
            ).with_field(Field::Struct { label: self.label, struct_: s.struct_index }) && s.fits(
                after,
            ),
            Err(e) => after == before && is_too_large(e) && (len > u32::MAX
                || before.structs.len() > u32::MAX),
        }
    }

    /// Begins a struct of `len` fields as the value of the field.
    pub fn serialize_struct(self, ser: &mut Serializer, len: usize) -> (r: Result<
        StructSerializer,
    >)
        requires
            old(ser).wf(),
        ensures
            final(ser).wf(),
            self.begins_struct(old(ser)@, len, final(ser)@, r),
    {
        let (struct_index, fields_index) = ser.add_struct(len)?;
        ser.add_field(Field::Struct { label: self.label, struct_: struct_index });
        Ok(StructSerializer { struct_index, fields_index })
    }

    /// Writes a struct without fields as the value of the field: the form of
    /// a value that is nothing.
    pub fn serialize_unit(self, ser: &mut Serializer) -> (r: Result<()>)
        requires
            old(ser).wf(),
        ensures
            final(ser).wf(),
            match r {
                Ok(_) => old(ser)@.structs.len() <= u32::MAX && final(ser)@ == old(
                    ser,
                )@.with_struct(0).with_field(
                    Field::Struct {
                        label: self.label,
                        struct_: StructIndex(old(ser)@.structs.len() as u32),
                    },
                ),
                Err(e) => final(ser)@ == old(ser)@ && is_too_large(e) && old(ser)@.structs.len()
                    > u32::MAX,
            },
    {
        self.serialize_struct(ser, 0)?;
        Ok(())
    }

    /// Begins a list as the value of the field. Its items are handed to
    /// what this gives.
    pub fn serialize_tuple(self, ser: &mut Serializer, len: usize) -> (list: ListSerializer)
        requires
            old(ser).wf(),
        ensures
            final(ser).wf(),
            list.list_index.0 == old(ser)@.list_indices.len(),
            final(ser)@ == old(ser)@.with_list(self.label),
            list.fits(final(ser)@),
    {
        let list_index = ser.add_list(self.label, len);
        ListSerializer { list_index }
    }

    /// Begins a list as the value of the field, whose length may not be
    /// known yet.
    pub fn serialize_seq(self, ser: &mut Serializer, len: Option<usize>) -> (list: ListSerializer)
        requires
            old(ser).wf(),
        ensures
            final(ser).wf(),
            list.list_index.0 == old(ser)@.list_indices.len(),
            final(ser)@ == old(ser)@.with_list(self.label),
            list.fits(final(ser)@),
    {
        self.serialize_tuple(
            ser,
            match len {
                Some(len) => len,
                None => 0,
            },
        )
    }
}

impl ListSerializer {
    /// Whether this stands for a struct list of `content`.
    pub open spec fn fits(self, content: Content) -> bool {
        self.list_index.0 < content.list_indices.len()
    }

    /// Whether this stands for a struct list of `ser`.
    pub fn belongs_to(&self, ser: &Serializer) -> (b: bool)
        ensures
            b == self.fits(ser@),
    {
        self.list_index.0 < ser.list_indices.len()
    }

    /// Makes the struct that comes next an item of the list. The struct
    /// itself is then begun with `Serializer::serialize_struct`.
    pub fn serialize_element(&self, ser: &mut Serializer) -> (r: Result<()>)
        requires
            old(ser).wf(),
            self.fits(old(ser)@),
        ensures
            final(ser).wf(),
            self.fits(final(ser)@),
            match r {
                Ok(_) => old(ser)@.structs.len() <= u32::MAX && final(ser)@ == old(
                    ser,
                )@.with_item(self.list_index),
                Err(e) => final(ser)@ == old(ser)@ && is_too_large(e) && old(ser)@.structs.len()
                    > u32::MAX,
            },
    {
        let index = to_u32(ser.structs.len())?;
        ser.list_indices[self.list_index.0].push(index);
        proof {
            let now = old(ser)@.with_item(self.list_index);
            assert(ser@.labels =~= now.labels);
            assert(ser@.field_indices =~= now.field_indices);
            assert(ser@.list_indices =~= now.list_indices);
        }
        Ok(())
    }

    /// Ends the list. There is nothing left to do.
    pub fn end(self) {
    }
}

impl StructSerializer {
    /// Whether `r` and `after` are what writing a field with the label
    /// `key` and the value `value` to this struct gives with a serializer
    /// that holds `before`.
    pub open spec fn writes_field(
        self,
        before: Content,
        key: Seq<char>,
        value: SimpleValue,
        after: Content,
        r: Result<()>,
    ) -> bool {
        let name = vstd::utf8::encode_utf8(key);
        if name.len() > 16 {
            r == Err::<(), Error>(Error::TooLongLabel(name.len() as usize)) && after == before
        } else if before.labels.len() > u32::MAX || before.fields.len() > u32::MAX {
            r matches Err(e) && is_too_large(e) && after == before
        } else {
            let label = label_named(name);
            let field = FieldSerializer {
                label: LabelIndex(before.place_of(label) as u32),
                index: before.fields.len() as u32,
            };
            let labelled = before.with_label(label);
            if FieldSerializer::can_write(labelled, value) {
                r is Ok && after == field.written(labelled, value).with_field_of(
                    self.struct_index,
                    self.fields_index,
                    field.index,
                )
            } else {
                field.writes(labelled, value, after, r)
            }
        }
    }

    /// Writes a field with the label `key` and the value `value` to the
    /// struct. Where the value cannot be written, the label stays among the
    /// labels of the file.
    pub fn serialize_field(&self, ser: &mut Serializer, key: &str, value: &SimpleValue) -> (r:
        Result<()>)
        requires
            old(ser).wf(),
            self.fits(old(ser)@),
        ensures
            final(ser).wf(),
            self.fits(final(ser)@),
            self.writes_field(old(ser)@, key@, *value, final(ser)@, r),
    {
        let field = self.begin_field(ser, key)?;
        let r = field.serialize_value(ser, value);
        if r.is_ok() {
            self.end_field(ser, field.index);
        }
        r
    }
}

/// The number of bytes that the first `k` of the lists `lists` take, where
/// each takes four bytes for each entry and for each of `extra` numbers
/// before them.
pub open spec fn lists_size(lists: Seq<Seq<u32>>, extra: int, k: int) -> int
    decreases k,
{
    if k <= 0 {
        0
    } else {
        lists_size(lists, extra, k - 1) + 4 * (lists[k - 1].len() + extra)
    }
}

/// The bytes of the first `k` of the lists `lists`, one list after the
/// other. Where `prefixed` holds, each list has its length before it.
pub open spec fn lists_bytes(lists: Seq<Seq<u32>>, prefixed: bool, k: int) -> Seq<u8>
    decreases k,
{
    if k <= 0 {
        Seq::empty()
    } else {
        lists_bytes(lists, prefixed, k - 1) + if prefixed {
            u32_le(lists[k - 1].len() as u32)
        } else {
            Seq::empty()
        } + raw::words_bytes(lists[k - 1])
    }
}

impl Struct {
    /// The record that a file holds for this struct, where `offsets` holds
    /// the offset of each field list.
    pub open spec fn raw(self, offsets: Seq<u32>) -> raw::Struct {
        match self {
            Struct::NoFields => raw::Struct { tag: 0, offset: 0, fields: 0 },
            Struct::OneField(index) => raw::Struct { tag: 0, offset: index, fields: 1 },
            Struct::MultiField { list, fields } => raw::Struct {
                tag: 0,
                offset: offsets[list.0 as int],
                fields,
            },
        }
    }

    /// The record that a file holds for this struct, where `offsets` holds
    /// the offset of each field list: a struct with one field holds the
    /// number of that field, a struct with several the offset of its field
    /// list.
    pub fn into_raw(&self, offsets: &[u32]) -> (r: raw::Struct)
        requires
            *self matches Struct::MultiField { list, .. } ==> list.0 < offsets@.len(),
        ensures
            r == self.raw(offsets@),
    {
        match *self {
            Struct::NoFields => raw::Struct { tag: 0, offset: 0, fields: 0 },
            Struct::OneField(index) => raw::Struct { tag: 0, offset: index, fields: 1 },
            Struct::MultiField { list, fields } => raw::Struct {
                tag: 0,
                offset: offsets[list.0],
                fields,
            },
        }
    }
}

impl Field {
    /// The three numbers of the record that a file holds for this field:
    /// the code of the type, the number of the label, and the data; where
    /// `offsets` holds the offset of each struct list.
    pub open spec fn words(self, offsets: Seq<u32>) -> (u32, u32, u32) {
        match self {
            Field::Simple { label, value } => (
                value.spec_field_type().spec_code(),
                label.0,
                value.spec_data(),
            ),
            Field::Struct { label, struct_ } => (14, label.0, struct_.0),
            Field::List { label, list } => (15, label.0, offsets[list.0 as int]),
        }
    }

    /// The 12 bytes of the record that a file holds for this field.
    pub open spec fn bytes(self, offsets: Seq<u32>) -> Seq<u8> {
        let (tag, label, data) = self.words(offsets);
        u32_le(tag) + u32_le(label) + u32_le(data)
    }

    /// The record that a file holds for this field, where `offsets` holds
    /// the offset of each struct list.
    pub fn into_raw(&self, offsets: &[u32]) -> (r: raw::Field)
        requires
            *self matches Field::List { list, .. } ==> list.0 < offsets@.len(),
        ensures
            r.bytes() == self.bytes(offsets@),
            (r.tag, r.label, crate::endian::le_u32(r.data@)) == self.words(offsets@),
    {
        match self {
            Field::Simple { label, value } => value.into_raw(label.0),
            Field::Struct { label, struct_ } => {
                proof {
                    crate::endian::lemma_u32_round_trip(struct_.0);
                }
                raw::Field { tag: FieldType::Struct.code(), label: label.0, data: u32_bytes(struct_.0) }
            },
            Field::List { label, list } => {
                let offset = offsets[list.0];
                proof {
                    crate::endian::lemma_u32_round_trip(offset);
                }
                raw::Field { tag: FieldType::List.code(), label: label.0, data: u32_bytes(offset) }
            },
        }
    }
}

impl SimpleValueRef {
    /// The record that a file holds for a field with this value and the
    /// label with the number `label`.
    pub fn into_raw(&self, label: u32) -> (r: raw::Field)
        ensures
            r.tag == self.spec_field_type().spec_code(),
            r.label == label,
            r.data@ == u32_le(self.spec_data()),
            crate::endian::le_u32(r.data@) == self.spec_data(),
    {
        proof {
            crate::endian::lemma_u32_round_trip(self.spec_data());
        }
        raw::Field { tag: self.field_type().code(), label, data: u32_bytes(self.data()) }
    }
}

impl Content {
    /// The offset of the field list `k`, in bytes from the start of the
    /// section of the field lists.
    pub open spec fn field_list_offset(self, k: int) -> int {
        lists_size(self.field_indices, 0, k)
    }

    /// The offset of the struct list `k`, in bytes from the start of the
    /// section of the struct lists. Each list before it takes four bytes
    /// for each of its items and four for its length.
    pub open spec fn list_offset(self, k: int) -> int {
        lists_size(self.list_indices, 1, k)
    }

    /// The offsets of all field lists.
    pub open spec fn field_offsets(self) -> Seq<u32> {
        Seq::new(self.field_indices.len(), |k: int| self.field_list_offset(k) as u32)
    }

    /// The offsets of all struct lists.
    pub open spec fn list_offsets(self) -> Seq<u32> {
        Seq::new(self.list_indices.len(), |k: int| self.list_offset(k) as u32)
    }

    /// The number of bytes of the section of the field lists.
    pub open spec fn field_indices_size(self) -> int {
        lists_size(self.field_indices, 0, self.field_indices.len() as int)
    }

    /// The number of bytes of the section of the struct lists.
    pub open spec fn list_indices_size(self) -> int {
        lists_size(self.list_indices, 1, self.list_indices.len() as int)
    }

    /// The number of bytes of the file.
    pub open spec fn size(self) -> int {
        56 + 12 * self.structs.len() + 12 * self.fields.len() + 16 * self.labels.len()
            + self.field_data.len() + self.field_indices_size() + self.list_indices_size()
    }

    /// The header of the file: the sections lie one behind the other, the
    /// first behind the header.
    pub open spec fn header(self, signature: Signature, version: Version) -> Header {
        let structs: int = 56;
        let fields: int = structs + 12 * self.structs.len();
        let labels: int = fields + 12 * self.fields.len();
        let field_data: int = labels + 16 * self.labels.len();
        let field_indices: int = field_data + self.field_data.len();
        let list_indices: int = field_indices + self.field_indices_size();
        Header {
            signature,
            version,
            structs: Section { offset: structs as u32, count: self.structs.len() as u32 },
            fields: Section { offset: fields as u32, count: self.fields.len() as u32 },
            labels: Section { offset: labels as u32, count: self.labels.len() as u32 },
            field_data: Section {
                offset: field_data as u32,
                count: self.field_data.len() as u32,
            },
            field_indices: Section {
                offset: field_indices as u32,
                count: self.field_indices_size() as u32,
            },
            list_indices: Section {
                offset: list_indices as u32,
                count: self.list_indices_size() as u32,
            },
        }
    }

    /// The bytes of the struct records of the file.
    pub open spec fn structs_bytes(self) -> Seq<u8> {
        raw::concat(
            Seq::new(
                self.structs.len(),
                |i: int| self.structs[i].raw(self.field_offsets()).bytes(),
            ),
        )
    }

    /// The bytes of the field records of the file.
    pub open spec fn fields_bytes(self) -> Seq<u8> {
        raw::concat(
            Seq::new(self.fields.len(), |i: int| self.fields[i].bytes(self.list_offsets())),
        )
    }

    /// The bytes of the file: the header, the struct records, the field
    /// records, the labels, the field data, the field lists, and the struct
    /// lists, each with its length before it.
    pub open spec fn bytes(self, signature: Signature, version: Version) -> Seq<u8> {
        self.header(signature, version).bytes() + self.structs_bytes() + self.fields_bytes()
            + raw::labels_bytes(self.labels) + self.field_data + lists_bytes(
            self.field_indices,
            false,
            self.field_indices.len() as int,
        ) + lists_bytes(self.list_indices, true, self.list_indices.len() as int)
    }
}

/// The lists before a list take no more bytes than the lists before a later
/// one, and a number of bytes that four divides.
pub proof fn lemma_lists_size(lists: Seq<Seq<u32>>, extra: int, i: int, k: int)
    requires
        0 <= i <= k,
        extra >= 0,
    ensures
        0 <= lists_size(lists, extra, i) <= lists_size(lists, extra, k),
        lists_size(lists, extra, i) % 4 == 0,
    decreases k,
{
    if i == 0 {
        if k > 0 {
            lemma_lists_size(lists, extra, 0, k - 1);
        }
    } else if i < k {
        lemma_lists_size(lists, extra, i, k - 1);
    } else {
        lemma_lists_size(lists, extra, i - 1, k - 1);
    }
}

/// The number of bytes that the lists `lists` take, where it fits 32 bits.
fn lists_total(lists: &Vec<Vec<u32>>, extra: u8) -> (r: Option<u32>)
    requires
        extra <= 1,
    ensures
        ({
            let all = Seq::new(lists@.len(), |i: int| lists@[i]@);
            match r {
                Some(n) => n == lists_size(all, extra as int, all.len() as int),
                None => lists_size(all, extra as int, all.len() as int) > u32::MAX,
            }
        }),
{
    let ghost all = Seq::new(lists@.len(), |i: int| lists@[i]@);
    let mut total: u64 = 0;
    let mut i: usize = 0;
    while i < lists.len()
        invariant
            i <= lists@.len(),
            extra <= 1,
            all == Seq::new(lists@.len(), |i: int| lists@[i]@),
            total == lists_size(all, extra as int, i as int),
            total <= u32::MAX,
        decreases lists@.len() - i,
    {
        let len = lists[i].len();
        proof {
            lemma_lists_size(all, extra as int, i + 1, all.len() as int);
        }
        if len > u32::MAX as usize {
            return None;
        }
        total = total + 4 * (len as u64 + extra as u64);
        if total > u32::MAX as u64 {
            return None;
        }
        i += 1;
    }
    Some(total as u32)
}

impl Serializer {
    /// The offsets of the field lists in their section, for the records of
    /// the structs with several fields.
    fn calc_field_offsets(&self) -> (offsets: Vec<u32>)
        requires
            self@.field_indices_size() <= u32::MAX,
        ensures
            offsets@ == self@.field_offsets(),
    {
        let ghost all = self@.field_indices;
        let mut offsets: Vec<u32> = Vec::new();
        let mut last_offset: u32 = 0;
        let mut i: usize = 0;
        while i < self.field_indices.len()
            invariant
                i <= self.field_indices@.len(),
                all == self@.field_indices,
                all.len() == self.field_indices@.len(),
                lists_size(all, 0, all.len() as int) <= u32::MAX,
                last_offset == lists_size(all, 0, i as int),
                offsets@.len() == i,
                forall|k: int| 0 <= k < i ==> offsets@[k] == lists_size(all, 0, k),
            decreases self.field_indices@.len() - i,
        {
            offsets.push(last_offset);
            proof {
                lemma_lists_size(all, 0, i + 1, all.len() as int);
                assert(all[i as int] == self.field_indices@[i as int]@);
            }
            last_offset = last_offset + (self.field_indices[i].len() * 4) as u32;
            i += 1;
        }
        assert(offsets@ =~= self@.field_offsets());
        offsets
    }

    /// The offsets of the struct lists in their section, for the records of
    /// the list fields. Each list takes four bytes more than its items do:
    /// it begins with its length.
    fn calc_list_offsets(&self) -> (offsets: Vec<u32>)
        requires
            self@.list_indices_size() <= u32::MAX,
        ensures
            offsets@ == self@.list_offsets(),
    {
        let ghost all = self@.list_indices;
        let mut offsets: Vec<u32> = Vec::new();
        let mut last_offset: u32 = 0;
        let mut i: usize = 0;
        while i < self.list_indices.len()
            invariant
                i <= self.list_indices@.len(),
                all == self@.list_indices,
                all.len() == self.list_indices@.len(),
                lists_size(all, 1, all.len() as int) <= u32::MAX,
                last_offset == lists_size(all, 1, i as int),
                offsets@.len() == i,
                forall|k: int| 0 <= k < i ==> offsets@[k] == lists_size(all, 1, k),
            decreases self.list_indices@.len() - i,
        {
            offsets.push(last_offset);
            proof {
                lemma_lists_size(all, 1, i + 1, all.len() as int);
                assert(all[i as int] == self.list_indices@[i as int]@);
            }
            last_offset = last_offset + ((self.list_indices[i].len() + 1) * 4) as u32;
            i += 1;
        }
        assert(offsets@ =~= self@.list_offsets());
        offsets
    }

    /// The header of the file that holds all that was handed in, where the
    /// file fits the 32 bits that the format counts in.
    pub fn make_header(&self, signature: Signature, version: Version) -> (r: Result<Header>)
        ensures
            match r {
                Ok(header) => self@.size() <= u32::MAX && header == self@.header(
                    signature,
                    version,
                ),
                Err(e) => self@.size() > u32::MAX && is_too_large(e),
            },
    {
        proof {
            lemma_lists_size(self@.field_indices, 0, 0, self@.field_indices.len() as int);
            lemma_lists_size(self@.list_indices, 1, 0, self@.list_indices.len() as int);
        }
        let structs = to_u32(self.structs.len())?;
        let fields = to_u32(self.fields.len())?;
        let labels = to_u32(label_set_len(&self.labels))?;
        let field_data = to_u32(self.field_data.len())?;
        let field_indices = match lists_total(&self.field_indices, 0) {
            Some(n) => n,
            None => return Err(too_large()),
        };
        let list_indices = match lists_total(&self.list_indices, 1) {
            Some(n) => n,
            None => return Err(too_large()),
        };
        let size: u64 = 56 + 12 * (structs as u64) + 12 * (fields as u64) + 16 * (labels as u64)
            + field_data as u64 + field_indices as u64 + list_indices as u64;
        if size > u32::MAX as u64 {
            return Err(too_large());
        }
        let mut builder = Builder::new();
        Ok(
            Header {
                signature,
                version,
                structs: builder.add_section(structs, 12),
                fields: builder.add_section(fields, 12),
                labels: builder.add_section(labels, 16),
                field_data: builder.add_section(field_data, 1),
                field_indices: builder.add_section(field_indices, 1),
                list_indices: builder.add_section(list_indices, 1),
            },
        )
    }

    /// Writes the file that holds all that was handed in to `writer`: the
    /// header, then the six sections. A file that does not fit the 32 bits
    /// that the format counts in is not written.
    #[verifier::rlimit(40)]
    pub fn write(&self, writer: &mut Vec<u8>, signature: Signature, version: Version) -> (r:
        Result<()>)
        requires
            self.wf(),
        ensures
            match r {
                Ok(_) => self@.size() <= u32::MAX && final(writer)@ == old(writer)@
                    + self@.bytes(signature, version),
                Err(e) => self@.size() > u32::MAX && is_too_large(e) && final(writer)@ == old(
                    writer,
                )@,
            },
    {
        let header = self.make_header(signature, version)?;
        proof {
            lemma_lists_size(self@.field_indices, 0, 0, self@.field_indices.len() as int);
            lemma_lists_size(self@.list_indices, 1, 0, self@.list_indices.len() as int);
        }
        let ghost content = self@;
        let ghost a = header.bytes();
        let ghost b = content.structs_bytes();
        let ghost c = content.fields_bytes();
        let ghost d = raw::labels_bytes(content.labels);
        let ghost e = content.field_data;
        let ghost f = lists_bytes(content.field_indices, false, content.field_indices.len() as int);
        let ghost g = lists_bytes(content.list_indices, true, content.list_indices.len() as int);
        header.write(writer);
        assert(writer@ == old(writer)@ + a);
        self.write_structs(writer);
        assert(writer@ == old(writer)@ + a + b);
        self.write_fields(writer);
        assert(writer@ == old(writer)@ + a + b + c);
        self.write_labels(writer);
        assert(writer@ == old(writer)@ + a + b + c + d);
        writer.extend_from_slice(self.field_data.as_slice());
        assert(writer@ == old(writer)@ + a + b + c + d + e);
        self.write_field_lists(writer);
        assert(writer@ == old(writer)@ + a + b + c + d + e + f);
        self.write_struct_lists(writer);
        assert(writer@ == old(writer)@ + a + b + c + d + e + f + g);
        proof {
            lemma_seven_behind(old(writer)@, a, b, c, d, e, f, g);
            assert(self@.bytes(signature, version) == a + b + c + d + e + f + g);
        }
        Ok(())
    }

    /// Writes the field lists to `writer`, one behind the other.
    fn write_field_lists(&self, writer: &mut Vec<u8>)
        ensures
            final(writer)@ == old(writer)@ + lists_bytes(
                self@.field_indices,
                false,
                self@.field_indices.len() as int,
            ),
    {
        let ghost all = self@.field_indices;
        let mut i: usize = 0;
        while i < self.field_indices.len()
            invariant
                i <= self.field_indices@.len(),
                all == self@.field_indices,
                all.len() == self.field_indices@.len(),
                writer@ == old(writer)@ + lists_bytes(all, false, i as int),
            decreases self.field_indices@.len() - i,
        {
            proof {
                assert(all[i as int] == self.field_indices@[i as int]@);
            }
            self.write_indices(writer, &self.field_indices[i]);
            assert(writer@ =~= old(writer)@ + lists_bytes(all, false, i + 1));
            i += 1;
        }
    }

    /// Writes the struct lists to `writer`, one behind the other, each with
    /// its length before it.
    fn write_struct_lists(&self, writer: &mut Vec<u8>)
        requires
            self@.list_indices_size() <= u32::MAX,
        ensures
            final(writer)@ == old(writer)@ + lists_bytes(
                self@.list_indices,
                true,
                self@.list_indices.len() as int,
            ),
    {
        let ghost lists = self@.list_indices;
        let mut i: usize = 0;
        while i < self.list_indices.len()
            invariant
                i <= self.list_indices@.len(),
                lists == self@.list_indices,
                lists.len() == self.list_indices@.len(),
                lists_size(lists, 1, lists.len() as int) <= u32::MAX,
                writer@ == old(writer)@ + lists_bytes(lists, true, i as int),
            decreases self.list_indices@.len() - i,
        {
            proof {
                assert(lists[i as int] == self.list_indices@[i as int]@);
                lemma_lists_size(lists, 1, i as int, lists.len() as int);
                lemma_lists_size(lists, 1, i + 1, lists.len() as int);
            }
            put_u32(writer, self.list_indices[i].len() as u32);
            self.write_indices(writer, &self.list_indices[i]);
            assert(writer@ =~= old(writer)@ + lists_bytes(lists, true, i + 1));
            i += 1;
        }
    }

    /// Writes the records of the structs to `writer`.
    fn write_structs(&self, writer: &mut Vec<u8>)
        requires
            self.wf(),
            self@.field_indices_size() <= u32::MAX,
        ensures
            final(writer)@ == old(writer)@ + self@.structs_bytes(),
    {
        let offsets = self.calc_field_offsets();
        let ghost parts = Seq::new(
            self@.structs.len(),
            |i: int| self@.structs[i].raw(self@.field_offsets()).bytes(),
        );
        let mut i: usize = 0;
        while i < self.structs.len()
            invariant
                i <= self.structs@.len(),
                self.wf(),
                offsets@ == self@.field_offsets(),
                parts == Seq::new(
                    self@.structs.len(),
                    |i: int| self@.structs[i].raw(self@.field_offsets()).bytes(),
                ),
                writer@ == old(writer)@ + raw::concat(parts.take(i as int)),
            decreases self.structs@.len() - i,
        {
            assert(self@.structs[i as int] == self.structs@[i as int]);
            self.structs[i].into_raw(offsets.as_slice()).write(writer);
            proof {
                raw::lemma_concat_take(parts, i as int);
            }
            i += 1;
        }
        assert(parts.take(i as int) =~= parts);
    }

    /// Writes the records of the fields to `writer`.
    fn write_fields(&self, writer: &mut Vec<u8>)
        requires
            self.wf(),
            self@.list_indices_size() <= u32::MAX,
        ensures
            final(writer)@ == old(writer)@ + self@.fields_bytes(),
    {
        let offsets = self.calc_list_offsets();
        let ghost parts = Seq::new(
            self@.fields.len(),
            |i: int| self@.fields[i].bytes(self@.list_offsets()),
        );
        let mut i: usize = 0;
        while i < self.fields.len()
            invariant
                i <= self.fields@.len(),
                self.wf(),
                offsets@ == self@.list_offsets(),
                parts == Seq::new(
                    self@.fields.len(),
                    |i: int| self@.fields[i].bytes(self@.list_offsets()),
                ),
                writer@ == old(writer)@ + raw::concat(parts.take(i as int)),
            decreases self.fields@.len() - i,
        {
            assert(self@.fields[i as int] == self.fields@[i as int]);
            self.fields[i].into_raw(offsets.as_slice()).write(writer);
            proof {
                raw::lemma_concat_take(parts, i as int);
            }
            i += 1;
        }
        assert(parts.take(i as int) =~= parts);
    }

    /// Writes the labels to `writer`, 16 bytes each.
    fn write_labels(&self, writer: &mut Vec<u8>)
        ensures
            final(writer)@ == old(writer)@ + raw::labels_bytes(self@.labels),
    {
        let ghost parts = Seq::new(self@.labels.len(), |i: int| self@.labels[i].0@);
        let count = label_set_len(&self.labels);
        let mut i: usize = 0;
        while i < count
            invariant
                i <= count,
                count == self@.labels.len(),
                parts == Seq::new(self@.labels.len(), |i: int| self@.labels[i].0@),
                writer@ == old(writer)@ + raw::concat(parts.take(i as int)),
            decreases count - i,
        {
            if let Some(label) = label_set_get(&self.labels, i) {
                writer.extend_from_slice(label.as_slice());
            }
            proof {
                raw::lemma_concat_take(parts, i as int);
            }
            i += 1;
        }
        assert(parts.take(i as int) =~= parts);
    }

    /// Writes the numbers `indices` to `writer`, four bytes each.
    fn write_indices(&self, writer: &mut Vec<u8>, indices: &Vec<u32>)
        ensures
            final(writer)@ == old(writer)@ + raw::words_bytes(indices@),
    {
        raw::write_words(writer, indices);
    }
}

/// The numbers of the first `k` of the lists `lists`, one list after the
/// other. Where `prefixed` holds, each list has its length before it.
pub open spec fn lists_words(lists: Seq<Seq<u32>>, prefixed: bool, k: int) -> Seq<u32>
    decreases k,
{
    if k <= 0 {
        Seq::empty()
    } else {
        lists_words(lists, prefixed, k - 1) + if prefixed {
            seq![lists[k - 1].len() as u32]
        } else {
            Seq::empty()
        } + lists[k - 1]
    }
}

/// The numbers of lists, one list after the other, are written as the bytes
/// of the lists, and are as many as a fourth of those bytes.
pub proof fn lemma_lists_words(lists: Seq<Seq<u32>>, prefixed: bool, k: int)
    requires
        0 <= k,
    ensures
        raw::words_bytes(lists_words(lists, prefixed, k)) == lists_bytes(lists, prefixed, k),
        4 * lists_words(lists, prefixed, k).len() == lists_size(
            lists,
            if prefixed {
                1
            } else {
                0
            },
            k,
        ),
    decreases k,
{
    if k <= 0 {
        assert(raw::words_bytes(Seq::<u32>::empty()) =~= Seq::<u8>::empty());
    } else {
        lemma_lists_words(lists, prefixed, k - 1);
        let before = lists_words(lists, prefixed, k - 1);
        let len = seq![lists[k - 1].len() as u32];
        let list = lists[k - 1];
        if prefixed {
            raw::lemma_words_append(before, len);
            raw::lemma_words_append(before + len, list);
            assert(raw::words_bytes(len) =~= u32_le(lists[k - 1].len() as u32)) by {
                let parts = Seq::new(len.len(), |i: int| u32_le(len[i]));
                assert(parts.drop_last() =~= Seq::<Seq<u8>>::empty());
                assert(raw::concat(parts.drop_last()) =~= Seq::<u8>::empty());
                assert(parts.last() == u32_le(len[0]));
                assert(raw::concat(parts) =~= u32_le(len[0]));
            }
        } else {
            assert(before + Seq::<u32>::empty() =~= before);
            raw::lemma_words_append(before, list);
            assert(lists_bytes(lists, false, k - 1) + Seq::<u8>::empty() =~= lists_bytes(
                lists,
                false,
                k - 1,
            ));
        }
    }
}

impl Content {
    /// Whether `gff` holds the records of the file that is written for this
    /// content.
    pub open spec fn written_as(self, gff: raw::Gff, signature: Signature, version: Version)
        -> bool {
        &&& gff.header == self.header(signature, version)
        &&& gff.structs@ == Seq::new(
            self.structs.len(),
            |i: int| self.structs[i].raw(self.field_offsets()),
        )
        &&& gff.fields@.len() == self.fields.len()
        &&& forall|i: int|
            0 <= i < self.fields.len() ==> (#[trigger] gff.fields@[i]).bytes()
                == self.fields[i].bytes(self.list_offsets())
        &&& gff.labels@ == self.labels
        &&& gff.field_data@ == self.field_data
        &&& gff.field_indices@ == lists_words(
            self.field_indices,
            false,
            self.field_indices.len() as int,
        )
        &&& gff.list_indices@ == lists_words(
            self.list_indices,
            true,
            self.list_indices.len() as int,
        )
    }
}

/// The records of the file that is written lie in the usual layout, and
/// its header tells of exactly what its sections hold.
#[verifier::rlimit(40)]
pub proof fn lemma_written_consistent(
    content: Content,
    gff: raw::Gff,
    signature: Signature,
    version: Version,
)
    requires
        content.size() <= u32::MAX,
        signature.canonical(),
        content.written_as(gff, signature, version),
    ensures
        gff.consistent(),
{
    lemma_lists_size(content.field_indices, 0, 0, content.field_indices.len() as int);
    lemma_lists_size(content.list_indices, 1, 0, content.list_indices.len() as int);
    lemma_lists_words(content.field_indices, false, content.field_indices.len() as int);
    lemma_lists_words(content.list_indices, true, content.list_indices.len() as int);
    let h = gff.header;
    assert(h.structs.count == content.structs.len());
    assert(h.fields.count == content.fields.len());
    assert(h.labels.count == content.labels.len());
    assert(h.field_data.count == content.field_data.len());
    assert(h.field_indices.count == content.field_indices_size());
    assert(h.list_indices.count == content.list_indices_size());
}

/// The bytes of the records of the file that is written are the bytes that
/// are written.
#[verifier::rlimit(40)]
pub proof fn lemma_written_bytes(
    content: Content,
    gff: raw::Gff,
    signature: Signature,
    version: Version,
)
    requires
        content.written_as(gff, signature, version),
    ensures
        gff.bytes() == content.bytes(signature, version),
{
    lemma_lists_words(content.field_indices, false, content.field_indices.len() as int);
    lemma_lists_words(content.list_indices, true, content.list_indices.len() as int);
    assert(raw::structs_bytes(gff.structs@) == content.structs_bytes()) by {
        assert(Seq::new(gff.structs@.len(), |i: int| gff.structs@[i].bytes()) =~= Seq::new(
            content.structs.len(),
            |i: int| content.structs[i].raw(content.field_offsets()).bytes(),
        ));
    }
    assert(raw::fields_bytes(gff.fields@) == content.fields_bytes()) by {
        assert(Seq::new(gff.fields@.len(), |i: int| gff.fields@[i].bytes()) =~= Seq::new(
            content.fields.len(),
            |i: int| content.fields[i].bytes(content.list_offsets()),
        ));
    }
}

/// The file that is written is a file in the usual layout whose header
/// tells of exactly what its sections hold; so reading it gives the records
/// that were written.
pub proof fn lemma_written_file(
    content: Content,
    gff: raw::Gff,
    signature: Signature,
    version: Version,
)
    requires
        content.size() <= u32::MAX,
        signature.canonical(),
        content.written_as(gff, signature, version),
    ensures
        gff.consistent(),
        gff.bytes() == content.bytes(signature, version),
        gff.read_from(content.bytes(signature, version), 0),
{
    lemma_written_consistent(content, gff, signature, version);
    lemma_written_bytes(content, gff, signature, version);
    raw::lemma_read_write(gff);
}

/// A struct with one field holds the number of that field, and not an
/// offset; a struct with several fields holds the offset of its field list,
/// in bytes, which 4 divides. This is so where the field lists fit the 32
/// bits that the format counts in; a file in which they do not is not
/// written.
pub proof fn lemma_struct_record(content: Content, i: int)
    requires
        content.wf(),
        content.field_indices_size() <= u32::MAX,
        0 <= i < content.structs.len(),
    ensures
        ({
            let record = content.structs[i].raw(content.field_offsets());
            match content.structs[i] {
                Struct::NoFields => record.fields == 0,
                Struct::OneField(field) => record.fields == 1 && record.offset == field,
                Struct::MultiField { list, fields } => record.fields == fields && record.offset
                    == content.field_list_offset(list.0 as int) && record.offset % 4 == 0,
            }
        }),
{
    match content.structs[i] {
        Struct::MultiField { list, .. } => {
            lemma_lists_size(
                content.field_indices,
                0,
                list.0 as int,
                content.field_indices.len() as int,
            );
        },
        _ => {},
    }
}

/// A list field holds the offset of its struct list, in bytes: each list
/// before it takes four bytes for its length and four for each item. This
/// is so where the struct lists fit the 32 bits that the format counts in;
/// a file in which they do not is not written.
pub proof fn lemma_list_record(content: Content, i: int)
    requires
        content.wf(),
        content.list_indices_size() <= u32::MAX,
        0 <= i < content.fields.len(),
        content.fields[i] is List,
    ensures
        ({
            let (tag, label, data) = content.fields[i].words(content.list_offsets());
            let list = content.fields[i]->list;
            &&& tag == 15
            &&& data == content.list_offset(list.0 as int)
            &&& list.0 > 0 ==> data == content.list_offset(list.0 - 1) + 4 * (
            content.list_indices[list.0 - 1].len() + 1)
        }),
{
    let list = content.fields[i]->list;
    lemma_lists_size(content.list_indices, 1, list.0 as int, content.list_indices.len() as int);
}

/// A struct with one field holds the number of its field in the list of
/// all fields: where a field is written to such a struct, the struct holds
/// the number that this field was added under, whatever it held before.
pub proof fn lemma_one_field_written(
    handle: StructSerializer,
    before: Content,
    key: Seq<char>,
    value: SimpleValue,
    after: Content,
    r: Result<()>,
)
    requires
        handle.fits(before),
        before.structs[handle.struct_index.0 as int] is OneField,
        handle.writes_field(before, key, value, after, r),
        r is Ok,
    ensures
        before.fields.len() <= u32::MAX,
        after.fields.len() == before.fields.len() + 1,
        after.structs[handle.struct_index.0 as int] == Struct::OneField(
            before.fields.len() as u32,
        ),
{
}

/// The name of a resource is written as a field of the type 11 whose data
/// are the offset of the name in the field data; there the name stands as
/// one byte with its length and then its bytes, up to 255 of them.
pub proof fn lemma_resref_written(
    field: FieldSerializer,
    before: Content,
    name: crate::resref::ResRef,
    after: Content,
    r: Result<()>,
)
    requires
        field.writes(before, SimpleValue::ResRef(name), after, r),
        r is Ok,
    ensures
        name.bytes().len() <= 255,
        before.field_data.len() <= u32::MAX,
        after.field_data == before.field_data + (seq![name.bytes().len() as u8] + name.bytes()),
        after.fields.len() == before.fields.len() + 1,
        after.fields.last().words(after.list_offsets()) == (
            11u32,
            field.label.0,
            before.field_data.len() as u32,
        ),
{
}

/// The number of bytes that the texts of a localized string take in the
/// field data: for each text its own bytes and eight more.
pub open spec fn texts_size(strings: Seq<crate::string::SubString>) -> int
    decreases strings.len(),
{
    if strings.len() == 0 {
        0
    } else {
        texts_size(strings.drop_last()) + 8 + vstd::utf8::encode_utf8(strings.last().string@).len()
    }
}

/// The texts of a localized string take their own bytes and eight more
/// each.
pub proof fn lemma_texts_size(strings: Seq<crate::string::SubString>)
    ensures
        substrings_payload(strings).len() == texts_size(strings),
    decreases strings.len(),
{
    if strings.len() > 0 {
        lemma_texts_size(strings.drop_last());
    }
}

/// A localized string is written as a field of the type 12 whose data are
/// the offset of the string in the field data. There stand the number of
/// the bytes that follow, the string reference, the number of the texts,
/// and the texts in their order, each as its key, its length and its bytes.
/// The bytes that follow the first number are eight and those of the
/// texts.
pub proof fn lemma_loc_string_written(
    field: FieldSerializer,
    before: Content,
    value: crate::string::LocString,
    after: Content,
    r: Result<()>,
)
    requires
        field.writes(before, SimpleValue::LocString(value), after, r),
        r is Ok,
    ensures
        8 + texts_size(value.strings@) <= u32::MAX,
        before.field_data.len() <= u32::MAX,
        after.field_data == before.field_data + (u32_le((8 + texts_size(value.strings@)) as u32)
            + u32_le(value.str_ref.0) + u32_le(value.strings@.len() as u32) + substrings_payload(
            value.strings@,
        )),
        after.fields.len() == before.fields.len() + 1,
        after.fields.last().words(after.list_offsets()) == (
            12u32,
            field.label.0,
            before.field_data.len() as u32,
        ),
{
    lemma_texts_size(value.strings@);
}

/// Seven runs of bytes behind a first one are the seven, one after the
/// other, behind the first.
pub proof fn lemma_seven_behind(
    first: Seq<u8>,
    a: Seq<u8>,
    b: Seq<u8>,
    c: Seq<u8>,
    d: Seq<u8>,
    e: Seq<u8>,
    f: Seq<u8>,
    g: Seq<u8>,
)
    ensures
        first + a + b + c + d + e + f + g == first + (a + b + c + d + e + f + g),
{
    assert(first + a + b + c + d + e + f + g =~= first + (a + b + c + d + e + f + g));
}

/// Appends the file that holds all that was handed to `value` to `writer`,
/// in the current version of the format.
pub fn to_writer(writer: &mut Vec<u8>, signature: Signature, value: &Serializer) -> (r: Result<()>)
    requires
        value.wf(),
    ensures
        match r {
            Ok(_) => value@.size() <= u32::MAX && final(writer)@ == old(writer)@ + value@.bytes(
                signature,
                Version::current(),
            ),
            Err(e) => value@.size() > u32::MAX && is_too_large(e) && final(writer)@ == old(
                writer,
            )@,
        },
{
    value.write(writer, signature, Version::v3_2())
}

/// The file that holds all that was handed to `value`, in the current
/// version of the format.
pub fn to_vec(signature: Signature, value: &Serializer) -> (r: Result<Vec<u8>>)
    requires
        value.wf(),
    ensures
        match r {
            Ok(file) => value@.size() <= u32::MAX && file@ == value@.bytes(
                signature,
                Version::current(),
            ),
            Err(e) => value@.size() > u32::MAX && is_too_large(e),
        },
{
    let mut vec = Vec::new();
    to_writer(&mut vec, signature, value)?;
    Ok(vec)
}

/// Lays the sections of a file out, one behind the other.
struct Builder {
    /// The offset at which the next section begins.
    offset: u32,
}

impl Builder {
    /// A layout in which the first section begins behind the header: the
    /// signature, the version, and six sections of two numbers each.
    fn new() -> (b: Builder)
        ensures
            b.offset == 56,
    {
        Builder { offset: 4 + 4 + 8 * 6 }
    }

    /// The section of `count` records of `size` bytes each that begins
    /// where the section before it ends.
    fn add_section(&mut self, count: u32, size: u32) -> (section: Section)
        requires
            old(self).offset + count * size <= u32::MAX,
        ensures
            section == (Section { offset: old(self).offset, count }),
            final(self).offset == old(self).offset + count * size,
    {
        let section = Section { offset: self.offset, count };
        let offset = self.offset;
        assert(count * size <= u32::MAX) by (nonlinear_arith)
            requires
                offset + count * size <= u32::MAX,
                offset >= 0,
        ;
        self.offset += section.count * size;
        section
    }
}

} // verus!
