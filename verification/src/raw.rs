//! The records of a GFF file as they lie on disk. Most users have no need of
//! this module; it shows what a file holds before any of it is interpreted.

use crate::endian::{le_u32, lemma_u32_bytes_round_trip, lemma_u32_round_trip, u32_bytes, u32_le};
use crate::error::{Error, IoError, Result};
use crate::header::Header;
use crate::label::Label;
use crate::source::{bytes_at, u32_at, Source};
use vstd::prelude::*;

verus! {

/// The size of a struct record, in bytes.
pub const STRUCT_SIZE: usize = 12;

/// The size of a field record, in bytes.
pub const FIELD_SIZE: usize = 12;

/// The types that a field of a GFF struct can have.
#[derive(Debug, Copy, Clone, PartialEq, Eq, Hash)]
pub enum FieldType {
    /// An unsigned number of one byte.
    Byte,
    /// A character of one byte, kept as a signed number.
    Char,
    /// An unsigned number of two bytes.
    Word,
    /// A signed number of two bytes.
    Short,
    /// An unsigned number of four bytes.
    Dword,
    /// A signed number of four bytes.
    Int,
    /// An unsigned number of eight bytes.
    Dword64,
    /// A signed number of eight bytes.
    Int64,
    /// A floating-point number of four bytes.
    Float,
    /// A floating-point number of eight bytes.
    Double,
    /// A text that is the same in every language.
    String,
    /// The name of a resource.
    ResRef,
    /// A text in several languages, or a reference to one.
    LocString,
    /// Bytes of any length and meaning.
    Void,
    /// A struct nested in the struct that holds the field.
    Struct,
    /// A list of structs.
    List,
}

impl FieldType {
    /// The number that stands for the type in a field record.
    pub open spec fn spec_code(self) -> u32 {
        match self {
            FieldType::Byte => 0,
            FieldType::Char => 1,
            FieldType::Word => 2,
            FieldType::Short => 3,
            FieldType::Dword => 4,
            FieldType::Int => 5,
            FieldType::Dword64 => 6,
            FieldType::Int64 => 7,
            FieldType::Float => 8,
            FieldType::Double => 9,
            FieldType::String => 10,
            FieldType::ResRef => 11,
            FieldType::LocString => 12,
            FieldType::Void => 13,
            FieldType::Struct => 14,
            FieldType::List => 15,
        }
    }

    /// The type that `value` stands for, if it is the code of one.
    pub open spec fn of_code(value: u32) -> Option<FieldType> {
        match value {
            0u32 => Some(FieldType::Byte),
            1u32 => Some(FieldType::Char),
            2u32 => Some(FieldType::Word),
            3u32 => Some(FieldType::Short),
            4u32 => Some(FieldType::Dword),
            5u32 => Some(FieldType::Int),
            6u32 => Some(FieldType::Dword64),
            7u32 => Some(FieldType::Int64),
            8u32 => Some(FieldType::Float),
            9u32 => Some(FieldType::Double),
            10u32 => Some(FieldType::String),
            11u32 => Some(FieldType::ResRef),
            12u32 => Some(FieldType::LocString),
            13u32 => Some(FieldType::Void),
            14u32 => Some(FieldType::Struct),
            15u32 => Some(FieldType::List),
            _ => None,
        }
    }

    /// Whether a value of this type lies in the field data of the file, and
    /// the field record holds its offset there.
    pub open spec fn spec_is_complex(self) -> bool {
        6 <= self.spec_code() <= 13 && self.spec_code() != 8
    }

    /// Whether a value of this type lies in the field record itself.
    pub open spec fn spec_is_simple(self) -> bool {
        self.spec_code() <= 5 || self.spec_code() == 8
    }

    /// Whether a value of this type lies in the field data of the file, and
    /// not in the field record. This is not so for a struct or a list, which
    /// lie in sections of their own.
    pub fn is_complex(&self) -> (b: bool)
        ensures
            b == self.spec_is_complex(),
    {
        match *self {
            FieldType::Dword64
            | FieldType::Int64
            | FieldType::Double
            | FieldType::String
            | FieldType::ResRef
            | FieldType::LocString
            | FieldType::Void => true,
            _ => false,
        }
    }

    /// Whether a value of this type lies in the field record itself.
    pub fn is_simple(&self) -> (b: bool)
        ensures
            b == self.spec_is_simple(),
    {
        !self.is_complex() && !matches!(*self, FieldType::Struct | FieldType::List)
    }

    /// The number that stands for the type in a field record.
    pub fn code(&self) -> (code: u32)
        ensures
            code == self.spec_code(),
    {
        match *self {
            FieldType::Byte => 0,
            FieldType::Char => 1,
            FieldType::Word => 2,
            FieldType::Short => 3,
            FieldType::Dword => 4,
            FieldType::Int => 5,
            FieldType::Dword64 => 6,
            FieldType::Int64 => 7,
            FieldType::Float => 8,
            FieldType::Double => 9,
            FieldType::String => 10,
            FieldType::ResRef => 11,
            FieldType::LocString => 12,
            FieldType::Void => 13,
            FieldType::Struct => 14,
            FieldType::List => 15,
        }
    }

    /// The type that `value` stands for, if it is the code of one.
    pub fn from_u32(value: u32) -> (t: Option<FieldType>)
        ensures
            t == FieldType::of_code(value),
    {
        Some(
            match value {
                0 => FieldType::Byte,
                1 => FieldType::Char,
                2 => FieldType::Word,
                3 => FieldType::Short,
                4 => FieldType::Dword,
                5 => FieldType::Int,
                6 => FieldType::Dword64,
                7 => FieldType::Int64,
                8 => FieldType::Float,
                9 => FieldType::Double,
                10 => FieldType::String,
                11 => FieldType::ResRef,
                12 => FieldType::LocString,
                13 => FieldType::Void,
                14 => FieldType::Struct,
                15 => FieldType::List,
                _ => return None,
            },
        )
    }
}

/// A type is the one that its code stands for, and a code that stands for a
/// type is the code of that type.
pub proof fn lemma_field_type_codes(t: FieldType, value: u32)
    ensures
        FieldType::of_code(t.spec_code()) == Some(t),
        FieldType::of_code(value) matches Some(u) ==> u.spec_code() == value,
        FieldType::of_code(value) is Some <==> value <= 15,
{
}

/// A struct as a file holds it.
#[derive(Debug, Clone, Copy, PartialEq, Eq)]
pub struct Struct {
    /// The type tag of the struct. The game hardly ever uses it; the writer
    /// of this library always writes 0.
    pub tag: u32,
    /// Where the fields are: nothing for a struct without fields, the number
    /// of the field for a struct with one field, and for a struct with more
    /// the offset of its field list, in bytes from the start of the section
    /// of the field lists.
    pub offset: u32,
    /// The number of fields of the struct.
    pub fields: u32,
}

impl Struct {
    /// The 12 bytes of the record.
    pub open spec fn bytes(self) -> Seq<u8> {
        u32_le(self.tag) + u32_le(self.offset) + u32_le(self.fields)
    }

    /// The record that the first 12 bytes of `b` hold.
    pub open spec fn parse(b: Seq<u8>) -> Struct {
        Struct {
            tag: le_u32(b),
            offset: le_u32(b.subrange(4, 8)),
            fields: le_u32(b.subrange(8, 12)),
        }
    }

    /// Reads the 12 bytes of a struct record.
    pub fn read(reader: &mut Source) -> (r: Result<Struct>)
        ensures
            match r {
                Ok(s) => old(reader).ahead(12) matches Some(b) && s == Struct::parse(b) && old(reader).advanced(final(reader), 12),
                Err(e) => old(reader).short(final(reader), e, 12),
            },
    {
        if !reader.has(STRUCT_SIZE) {
            return Err(Error::Io(IoError::UnexpectedEof));
        }
        let ghost b = reader.ahead(12)->0;
        let ghost at = reader.pos as int;
        let tag = reader.read_u32()?;
        assert(reader.data@.subrange(at, at + 4) =~= b.subrange(0, 4));
        let offset = reader.read_u32()?;
        assert(reader.data@.subrange(at + 4, at + 8) =~= b.subrange(4, 8));
        let fields = reader.read_u32()?;
        assert(reader.data@.subrange(at + 8, at + 12) =~= b.subrange(8, 12));
        proof {
            lemma_le_u32_prefix(b);
        }
        Ok(Struct { tag, offset, fields })
    }

    /// Appends the 12 bytes of the record to `writer`.
    pub fn write(&self, writer: &mut Vec<u8>)
        ensures
            final(writer)@ == old(writer)@ + self.bytes(),
    {
        let tag = u32_bytes(self.tag);
        let offset = u32_bytes(self.offset);
        let fields = u32_bytes(self.fields);
        writer.extend_from_slice(tag.as_slice());
        writer.extend_from_slice(offset.as_slice());
        writer.extend_from_slice(fields.as_slice());
        assert(writer@ =~= old(writer)@ + self.bytes());
    }
}

/// A field of a struct as a file holds it.
#[derive(Debug, Clone, Copy, PartialEq, Eq)]
pub struct Field {
    /// The code of the type of the field.
    pub tag: u32,
    /// The number of the label of the field.
    pub label: u32,
    /// The value itself where it fits into four bytes; for the other simple
    /// types its offset in the field data; for a struct its number; for a
    /// list the offset of its struct list, in bytes from the start of the
    /// section of the struct lists.
    pub data: [u8; 4],
}

impl Field {
    /// The 12 bytes of the record.
    pub open spec fn bytes(self) -> Seq<u8> {
        u32_le(self.tag) + u32_le(self.label) + self.data@
    }

    /// Whether this is the record that the first 12 bytes of `b` hold.
    pub open spec fn parsed_from(self, b: Seq<u8>) -> bool {
        &&& self.tag == le_u32(b)
        &&& self.label == le_u32(b.subrange(4, 8))
        &&& self.data@ == b.subrange(8, 12)
    }

    /// Reads the 12 bytes of a field record.
    pub fn read(reader: &mut Source) -> (r: Result<Field>)
        ensures
            match r {
                Ok(f) => old(reader).ahead(12) matches Some(b) && f.parsed_from(b) && old(reader).advanced(final(reader), 12),
                Err(e) => old(reader).short(final(reader), e, 12),
            },
    {
        if !reader.has(FIELD_SIZE) {
            return Err(Error::Io(IoError::UnexpectedEof));
        }
        let ghost b = reader.ahead(12)->0;
        let ghost at = reader.pos as int;
        let tag = reader.read_u32()?;
        assert(reader.data@.subrange(at, at + 4) =~= b.subrange(0, 4));
        let label = reader.read_u32()?;
        assert(reader.data@.subrange(at + 4, at + 8) =~= b.subrange(4, 8));
        let data = reader.read_array4()?;
        assert(reader.data@.subrange(at + 8, at + 12) =~= b.subrange(8, 12));
        proof {
            lemma_le_u32_prefix(b);
        }
        Ok(Field { tag, label, data })
    }

    /// Appends the 12 bytes of the record to `writer`.
    pub fn write(&self, writer: &mut Vec<u8>)
        ensures
            final(writer)@ == old(writer)@ + self.bytes(),
    {
        let tag = u32_bytes(self.tag);
        let label = u32_bytes(self.label);
        writer.extend_from_slice(tag.as_slice());
        writer.extend_from_slice(label.as_slice());
        writer.extend_from_slice(self.data.as_slice());
        assert(writer@ =~= old(writer)@ + self.bytes());
    }
}

/// The byte sequences `parts`, one after the other.
pub open spec fn concat(parts: Seq<Seq<u8>>) -> Seq<u8>
    decreases parts.len(),
{
    if parts.len() == 0 {
        Seq::empty()
    } else {
        concat(parts.drop_last()) + parts.last()
    }
}

/// The bytes of the struct records `structs`, one after the other.
pub open spec fn structs_bytes(structs: Seq<Struct>) -> Seq<u8> {
    concat(Seq::new(structs.len(), |i: int| structs[i].bytes()))
}

/// The bytes of the field records `fields`, one after the other.
pub open spec fn fields_bytes(fields: Seq<Field>) -> Seq<u8> {
    concat(Seq::new(fields.len(), |i: int| fields[i].bytes()))
}

/// The bytes of the labels `labels`, one after the other.
pub open spec fn labels_bytes(labels: Seq<Label>) -> Seq<u8> {
    concat(Seq::new(labels.len(), |i: int| labels[i].0@))
}

/// The bytes of the numbers `words`, one after the other.
pub open spec fn words_bytes(words: Seq<u32>) -> Seq<u8> {
    concat(Seq::new(words.len(), |i: int| u32_le(words[i])))
}

/// Whether the file `data` holds the struct records `structs`, one after the
/// other, from offset `at` on.
pub open spec fn structs_at(data: Seq<u8>, at: int, structs: Seq<Struct>) -> bool {
    forall|i: int|
        0 <= i < structs.len() ==> bytes_at(data, at + 12 * i, 12) == Some(
            (#[trigger] structs[i]).bytes(),
        )
}

/// Whether the file `data` holds the field records `fields`, one after the
/// other, from offset `at` on.
pub open spec fn fields_at(data: Seq<u8>, at: int, fields: Seq<Field>) -> bool {
    forall|i: int|
        0 <= i < fields.len() ==> bytes_at(data, at + 12 * i, 12) == Some(
            (#[trigger] fields[i]).bytes(),
        )
}

/// Whether the file `data` holds the labels `labels`, one after the other,
/// from offset `at` on.
pub open spec fn labels_at(data: Seq<u8>, at: int, labels: Seq<Label>) -> bool {
    forall|i: int|
        0 <= i < labels.len() ==> bytes_at(data, at + 16 * i, 16) == Some(
            (#[trigger] labels[i]).0@,
        )
}

/// Whether the file `data` holds the numbers `words`, one after the other,
/// from offset `at` on.
pub open spec fn words_at(data: Seq<u8>, at: int, words: Seq<u32>) -> bool {
    forall|i: int|
        0 <= i < words.len() ==> u32_at(data, at + 4 * i) == Some(#[trigger] words[i])
}

/// Whether `count` records of `size` bytes each lie in the file `data` from
/// offset `at` on. No records lie at every offset.
pub open spec fn fits(data: Seq<u8>, at: int, size: int, count: int) -> bool {
    count == 0 || at + size * count <= data.len()
}

/// All that a GFF file holds, as it lies on disk.
#[derive(Debug, Clone, PartialEq, Eq)]
pub struct Gff {
    /// The header of the file: what it is, and where its sections lie.
    pub header: Header,
    /// The structs of the file. A struct groups fields.
    pub structs: Vec<Struct>,
    /// The fields of all structs of the file.
    pub fields: Vec<Field>,
    /// The labels of the fields. A file that holds a label twice wastes
    /// room, but is not broken.
    pub labels: Vec<Label>,
    /// The values of the fields that do not fit into four bytes.
    pub field_data: Vec<u8>,
    /// The field lists of the structs with several fields, one after the
    /// other. Each entry is the number of a field.
    pub field_indices: Vec<u32>,
    /// The struct lists of the list fields, one after the other. Each list
    /// is its length and then, for each item, the number of its struct.
    pub list_indices: Vec<u32>,
}

impl Gff {
    /// The bytes of the file that holds all this in the usual layout: the
    /// header, then the six sections in the order of the header, with
    /// nothing between them.
    pub open spec fn bytes(self) -> Seq<u8> {
        self.header.bytes() + structs_bytes(self.structs@) + fields_bytes(self.fields@)
            + labels_bytes(self.labels@) + self.field_data@ + words_bytes(self.field_indices@)
            + words_bytes(self.list_indices@)
    }

    /// Whether this is what the file `data` holds, where its header lies at
    /// offset `at`.
    pub open spec fn read_from(self, data: Seq<u8>, at: int) -> bool {
        let h = self.header;
        &&& bytes_at(data, at, 56) == Some(h.bytes())
        &&& h.signature.canonical()
        &&& self.structs@.len() == h.structs.count
        &&& structs_at(data, h.structs.offset as int, self.structs@)
        &&& self.fields@.len() == h.fields.count
        &&& fields_at(data, h.fields.offset as int, self.fields@)
        &&& self.labels@.len() == h.labels.count
        &&& labels_at(data, h.labels.offset as int, self.labels@)
        &&& bytes_at(data, h.field_data.offset as int, h.field_data.count as int) == Some(
            self.field_data@,
        )
        &&& self.field_indices@.len() == h.field_indices.count / 4
        &&& words_at(data, h.field_indices.offset as int, self.field_indices@)
        &&& self.list_indices@.len() == h.list_indices.count / 4
        &&& words_at(data, h.list_indices.offset as int, self.list_indices@)
    }

    /// Whether all six sections that the header `h` tells of lie in the file
    /// `data`.
    pub open spec fn sections_fit(data: Seq<u8>, h: Header) -> bool {
        &&& fits(data, h.structs.offset as int, 12, h.structs.count as int)
        &&& fits(data, h.fields.offset as int, 12, h.fields.count as int)
        &&& fits(data, h.labels.offset as int, 16, h.labels.count as int)
        &&& fits(data, h.field_data.offset as int, 1, h.field_data.count as int)
        &&& fits(data, h.field_indices.offset as int, 4, h.field_indices.count as int / 4)
        &&& fits(data, h.list_indices.offset as int, 4, h.list_indices.count as int / 4)
    }

    /// Reads a whole file: the header at the read position, and then each
    /// section where the header says that it lies.
    pub fn read(reader: &mut Source) -> (r: Result<Gff>)
        ensures
            final(reader).data == old(reader).data,
            match r {
                Ok(gff) => gff.read_from(old(reader).data@, old(reader).pos as int)
                    && Gff::sections_fit(old(reader).data@, gff.header),
                Err(e) => e == crate::error::eof() && forall|h: Header|
                    old(reader).ahead(56) == Some(#[trigger] h.bytes()) ==> !Gff::sections_fit(
                        old(reader).data@,
                        h,
                    ),
            },
    {
        let header = Header::read(reader)?;
        proof {
            assert forall|h: Header| old(reader).ahead(56) == Some(#[trigger] h.bytes()) implies (
            Gff::sections_fit(old(reader).data@, h) == Gff::sections_fit(
                old(reader).data@,
                header,
            )) by {
                crate::header::lemma_header_parts(h);
                crate::header::lemma_header_parts(header);
            }
        }
        let structs = read_structs(reader, &header.structs)?;
        let fields = read_fields(reader, &header.fields)?;
        let labels = read_labels(reader, &header.labels)?;

        reader.seek(header.field_data.offset as u64);
        let field_data = reader.read_exact(header.field_data.count as usize)?;

        let field_indices = read_words(reader, &header.field_indices)?;
        let list_indices = read_words(reader, &header.list_indices)?;

        Ok(Gff { header, structs, fields, labels, field_data, field_indices, list_indices })
    }

    /// Appends the whole file to `writer`: the header, and then the six
    /// sections in the order of the header.
    pub fn write(&self, writer: &mut Vec<u8>)
        ensures
            final(writer)@ == old(writer)@ + self.bytes(),
    {
        self.header.write(writer);
        let ghost base = writer@;
        let ghost parts = Seq::new(self.structs@.len(), |i: int| self.structs@[i].bytes());
        let mut i: usize = 0;
        while i < self.structs.len()
            invariant
                i <= self.structs@.len(),
                parts == Seq::new(self.structs@.len(), |i: int| self.structs@[i].bytes()),
                writer@ == base + concat(parts.take(i as int)),
            decreases self.structs@.len() - i,
        {
            self.structs[i].write(writer);
            proof {
                lemma_concat_take(parts, i as int);
            }
            i += 1;
        }
        assert(parts.take(i as int) =~= parts);

        let ghost base = writer@;
        let ghost parts = Seq::new(self.fields@.len(), |i: int| self.fields@[i].bytes());
        let mut i: usize = 0;
        while i < self.fields.len()
            invariant
                i <= self.fields@.len(),
                parts == Seq::new(self.fields@.len(), |i: int| self.fields@[i].bytes()),
                writer@ == base + concat(parts.take(i as int)),
            decreases self.fields@.len() - i,
        {
            self.fields[i].write(writer);
            proof {
                lemma_concat_take(parts, i as int);
            }
            i += 1;
        }
        assert(parts.take(i as int) =~= parts);

        let ghost base = writer@;
        let ghost parts = Seq::new(self.labels@.len(), |i: int| self.labels@[i].0@);
        let mut i: usize = 0;
        while i < self.labels.len()
            invariant
                i <= self.labels@.len(),
                parts == Seq::new(self.labels@.len(), |i: int| self.labels@[i].0@),
                writer@ == base + concat(parts.take(i as int)),
            decreases self.labels@.len() - i,
        {
            writer.extend_from_slice(self.labels[i].as_ref());
            proof {
                lemma_concat_take(parts, i as int);
            }
            i += 1;
        }
        assert(parts.take(i as int) =~= parts);

        writer.extend_from_slice(self.field_data.as_slice());
        write_words(writer, &self.field_indices);
        write_words(writer, &self.list_indices);
        assert(writer@ =~= old(writer)@ + self.bytes());
    }
}

/// Appends the numbers `words` to `writer`, one after the other.
pub fn write_words(writer: &mut Vec<u8>, words: &Vec<u32>)
    ensures
        final(writer)@ == old(writer)@ + words_bytes(words@),
{
    let ghost parts = Seq::new(words@.len(), |i: int| u32_le(words@[i]));
    let mut i: usize = 0;
    while i < words.len()
        invariant
            i <= words@.len(),
            parts == Seq::new(words@.len(), |i: int| u32_le(words@[i])),
            writer@ == old(writer)@ + concat(parts.take(i as int)),
        decreases words@.len() - i,
    {
        let word = u32_bytes(words[i]);
        writer.extend_from_slice(word.as_slice());
        proof {
            lemma_concat_take(parts, i as int);
        }
        i += 1;
    }
    assert(parts.take(i as int) =~= parts);
}

/// Reads the struct records of the section `section`.
fn read_structs(reader: &mut Source, section: &crate::header::Section) -> (r: Result<Vec<Struct>>)
    ensures
        final(reader).data == old(reader).data,
        match r {
            Ok(structs) => structs@.len() == section.count && structs_at(
                old(reader).data@,
                section.offset as int,
                structs@,
            ) && fits(old(reader).data@, section.offset as int, 12, section.count as int),
            Err(e) => e == crate::error::eof() && !fits(
                old(reader).data@,
                section.offset as int,
                12,
                section.count as int,
            ),
        },
{
    reader.seek(section.offset as u64);
    let mut structs: Vec<Struct> = Vec::new();
    let mut i: u32 = 0;
    while i < section.count
        invariant
            i <= section.count,
            reader.data == old(reader).data,
            reader.pos == section.offset + 12 * i,
            structs@.len() == i,
            structs_at(reader.data@, section.offset as int, structs@),
            i > 0 ==> section.offset + 12 * i <= reader.data@.len(),
        decreases section.count - i,
    {
        let record = Struct::read(reader)?;
        proof {
            lemma_struct_bytes(old(reader).data@.subrange(reader.pos - 12, reader.pos as int));
        }
        structs.push(record);
        i += 1;
    }
    Ok(structs)
}

/// Reads the field records of the section `section`.
fn read_fields(reader: &mut Source, section: &crate::header::Section) -> (r: Result<Vec<Field>>)
    ensures
        final(reader).data == old(reader).data,
        match r {
            Ok(fields) => fields@.len() == section.count && fields_at(
                old(reader).data@,
                section.offset as int,
                fields@,
            ) && fits(old(reader).data@, section.offset as int, 12, section.count as int),
            Err(e) => e == crate::error::eof() && !fits(
                old(reader).data@,
                section.offset as int,
                12,
                section.count as int,
            ),
        },
{
    reader.seek(section.offset as u64);
    let mut fields: Vec<Field> = Vec::new();
    let mut i: u32 = 0;
    while i < section.count
        invariant
            i <= section.count,
            reader.data == old(reader).data,
            reader.pos == section.offset + 12 * i,
            fields@.len() == i,
            fields_at(reader.data@, section.offset as int, fields@),
            i > 0 ==> section.offset + 12 * i <= reader.data@.len(),
        decreases section.count - i,
    {
        let record = Field::read(reader)?;
        proof {
            lemma_field_round_trip(
                record,
                old(reader).data@.subrange(reader.pos - 12, reader.pos as int),
            );
        }
        fields.push(record);
        i += 1;
    }
    Ok(fields)
}

/// Reads the labels of the section `section`.
fn read_labels(reader: &mut Source, section: &crate::header::Section) -> (r: Result<Vec<Label>>)
    ensures
        final(reader).data == old(reader).data,
        match r {
            Ok(labels) => labels@.len() == section.count && labels_at(
                old(reader).data@,
                section.offset as int,
                labels@,
            ) && fits(old(reader).data@, section.offset as int, 16, section.count as int),
            Err(e) => e == crate::error::eof() && !fits(
                old(reader).data@,
                section.offset as int,
                16,
                section.count as int,
            ),
        },
{
    reader.seek(section.offset as u64);
    let mut labels: Vec<Label> = Vec::new();
    let mut i: u32 = 0;
    while i < section.count
        invariant
            i <= section.count,
            reader.data == old(reader).data,
            reader.pos == section.offset + 16 * i,
            labels@.len() == i,
            labels_at(reader.data@, section.offset as int, labels@),
            i > 0 ==> section.offset + 16 * i <= reader.data@.len(),
        decreases section.count - i,
    {
        let label = reader.read_array16()?;
        labels.push(Label::from(label));
        i += 1;
    }
    Ok(labels)
}

/// Reads the numbers of the section `section`, whose size is given in bytes.
fn read_words(reader: &mut Source, section: &crate::header::Section) -> (r: Result<Vec<u32>>)
    ensures
        final(reader).data == old(reader).data,
        match r {
            Ok(words) => words@.len() == section.count / 4 && words_at(
                old(reader).data@,
                section.offset as int,
                words@,
            ) && fits(old(reader).data@, section.offset as int, 4, section.count as int / 4),
            Err(e) => e == crate::error::eof() && !fits(
                old(reader).data@,
                section.offset as int,
                4,
                section.count as int / 4,
            ),
        },
{
    reader.seek(section.offset as u64);
    let count = section.count / 4;
    let mut words: Vec<u32> = Vec::new();
    let mut i: u32 = 0;
    while i < count
        invariant
            i <= count,
            count == section.count / 4,
            reader.data == old(reader).data,
            reader.pos == section.offset + 4 * i,
            words@.len() == i,
            words_at(reader.data@, section.offset as int, words@),
            i > 0 ==> section.offset + 4 * i <= reader.data@.len(),
        decreases count - i,
    {
        let word = reader.read_u32()?;
        words.push(word);
        i += 1;
    }
    Ok(words)
}

/// Two runs of byte sequences, one run after the other, are what the first
/// run is and then what the second run is.
pub proof fn lemma_concat_append(first: Seq<Seq<u8>>, second: Seq<Seq<u8>>)
    ensures
        concat(first + second) == concat(first) + concat(second),
    decreases second.len(),
{
    if second.len() == 0 {
        assert(first + second =~= first);
        assert(concat(first) + concat(second) =~= concat(first));
    } else {
        lemma_concat_append(first, second.drop_last());
        assert((first + second).drop_last() =~= first + second.drop_last());
        assert(concat(first + second) =~= concat(first) + concat(second));
    }
}

/// The bytes of two runs of numbers, one run after the other, are the bytes
/// of the first run and then those of the second.
pub proof fn lemma_words_append(first: Seq<u32>, second: Seq<u32>)
    ensures
        words_bytes(first + second) == words_bytes(first) + words_bytes(second),
{
    let a = Seq::new(first.len(), |i: int| u32_le(first[i]));
    let b = Seq::new(second.len(), |i: int| u32_le(second[i]));
    let all = first + second;
    assert(Seq::new(all.len(), |i: int| u32_le(all[i])) =~= a + b);
    lemma_concat_append(a, b);
}

/// The first `i + 1` of the byte sequences `parts`, one after the other, are
/// the first `i` of them and then the next one.
pub proof fn lemma_concat_take(parts: Seq<Seq<u8>>, i: int)
    requires
        0 <= i < parts.len(),
    ensures
        concat(parts.take(i + 1)) == concat(parts.take(i)) + parts[i],
{
    assert(parts.take(i + 1).drop_last() =~= parts.take(i));
}

/// Byte sequences of one size, one after the other, take that size times
/// their number, and each lies at that size times its own number.
pub proof fn lemma_concat_fixed(parts: Seq<Seq<u8>>, size: int)
    requires
        size > 0,
        forall|i: int| 0 <= i < parts.len() ==> (#[trigger] parts[i]).len() == size,
    ensures
        concat(parts).len() == size * parts.len(),
        forall|i: int|
            0 <= i < parts.len() ==> concat(parts).subrange(size * i, size * i + size)
                == #[trigger] parts[i],
    decreases parts.len(),
{
    if parts.len() > 0 {
        let front = parts.drop_last();
        let n = front.len() as int;
        lemma_concat_fixed(front, size);
        assert(size * (n + 1) == size * n + size) by (nonlinear_arith);
        assert forall|i: int| 0 <= i < parts.len() implies concat(parts).subrange(
            size * i,
            size * i + size,
        ) == #[trigger] parts[i] by {
            if i < n {
                assert(size * i + size <= size * n) by (nonlinear_arith)
                    requires
                        0 <= i < n,
                        size > 0,
                ;
                assert(0 <= size * i) by (nonlinear_arith)
                    requires
                        0 <= i,
                        size > 0,
                ;
                assert(concat(parts).subrange(size * i, size * i + size) =~= concat(
                    front,
                ).subrange(size * i, size * i + size));
                assert(front[i] == parts[i]);
            } else {
                assert(concat(parts).subrange(size * i, size * i + size) =~= parts[i]);
            }
        }
    } else {
        assert(size * 0 == 0) by (nonlinear_arith);
    }
}

/// Where a file holds byte sequences of one size, one after the other, it
/// holds there what they are when put one after the other.
pub proof fn lemma_concat_at(data: Seq<u8>, at: int, size: int, parts: Seq<Seq<u8>>)
    requires
        size > 0,
        at >= 0,
        forall|i: int|
            0 <= i < parts.len() ==> bytes_at(data, at + size * i, size) == Some(
                #[trigger] parts[i],
            ),
    ensures
        parts.len() > 0 ==> at + size * parts.len() <= data.len(),
        bytes_at(data, at, size * (parts.len() as int)) == Some(concat(parts)),
    decreases parts.len(),
{
    if parts.len() > 0 {
        let front = parts.drop_last();
        let n = front.len() as int;
        assert forall|i: int| 0 <= i < front.len() implies bytes_at(data, at + size * i, size)
            == Some(#[trigger] front[i]) by {
            assert(front[i] == parts[i]);
        }
        lemma_concat_at(data, at, size, front);
        assert(size * (n + 1) == size * n + size) by (nonlinear_arith);
        assert(0 <= size * n) by (nonlinear_arith)
            requires
                0 <= n,
                size > 0,
        ;
        assert(bytes_at(data, at + size * n, size) == Some(parts[n]));
        if n == 0 {
            assert(size * 0 == 0) by (nonlinear_arith);
            assert(concat(front) =~= Seq::<u8>::empty());
        }
        assert(data.subrange(at, at + size * n) + data.subrange(
            at + size * n,
            at + size * n + size,
        ) =~= data.subrange(at, at + size * (n + 1)));
    } else {
        assert(size * 0 == 0) by (nonlinear_arith);
    }
}

impl Gff {
    /// Whether the header tells of exactly what the sections hold, in the
    /// usual layout.
    pub open spec fn consistent(self) -> bool {
        let h = self.header;
        &&& h.signature.canonical()
        &&& self.structs@.len() == h.structs.count
        &&& self.fields@.len() == h.fields.count
        &&& self.labels@.len() == h.labels.count
        &&& self.field_data@.len() == h.field_data.count
        &&& self.field_indices@.len() * 4 == h.field_indices.count
        &&& self.list_indices@.len() * 4 == h.list_indices.count
        &&& h.packed(h.list_indices.offset + h.list_indices.count)
    }
}

/// Struct records, one after the other, take 12 bytes each.
pub proof fn lemma_structs_bytes(structs: Seq<Struct>)
    ensures
        structs_bytes(structs).len() == 12 * structs.len(),
        forall|i: int|
            0 <= i < structs.len() ==> structs_bytes(structs).subrange(12 * i, 12 * i + 12) == (
            #[trigger] structs[i]).bytes(),
{
    let parts = Seq::new(structs.len(), |i: int| structs[i].bytes());
    assert forall|i: int| 0 <= i < parts.len() implies (#[trigger] parts[i]).len() == 12 by {
        lemma_struct_round_trip(structs[i]);
    }
    lemma_concat_fixed(parts, 12);
    assert forall|i: int| 0 <= i < structs.len() implies structs_bytes(structs).subrange(
        12 * i,
        12 * i + 12,
    ) == (#[trigger] structs[i]).bytes() by {
        assert(parts[i] == structs[i].bytes());
    }
}

/// Field records, one after the other, take 12 bytes each.
pub proof fn lemma_fields_bytes(fields: Seq<Field>)
    ensures
        fields_bytes(fields).len() == 12 * fields.len(),
        forall|i: int|
            0 <= i < fields.len() ==> fields_bytes(fields).subrange(12 * i, 12 * i + 12) == (
            #[trigger] fields[i]).bytes(),
{
    let parts = Seq::new(fields.len(), |i: int| fields[i].bytes());
    assert forall|i: int| 0 <= i < parts.len() implies (#[trigger] parts[i]).len() == 12 by {
        lemma_field_round_trip(fields[i], Seq::empty());
    }
    lemma_concat_fixed(parts, 12);
    assert forall|i: int| 0 <= i < fields.len() implies fields_bytes(fields).subrange(
        12 * i,
        12 * i + 12,
    ) == (#[trigger] fields[i]).bytes() by {
        assert(parts[i] == fields[i].bytes());
    }
}

/// Labels, one after the other, take 16 bytes each.
pub proof fn lemma_labels_bytes(labels: Seq<Label>)
    ensures
        labels_bytes(labels).len() == 16 * labels.len(),
        forall|i: int|
            0 <= i < labels.len() ==> labels_bytes(labels).subrange(16 * i, 16 * i + 16) == (
            #[trigger] labels[i]).0@,
{
    let parts = Seq::new(labels.len(), |i: int| labels[i].0@);
    lemma_concat_fixed(parts, 16);
    assert forall|i: int| 0 <= i < labels.len() implies labels_bytes(labels).subrange(
        16 * i,
        16 * i + 16,
    ) == (#[trigger] labels[i]).0@ by {
        assert(parts[i] == labels[i].0@);
    }
}

/// Numbers, one after the other, take 4 bytes each.
pub proof fn lemma_words_bytes(words: Seq<u32>)
    ensures
        words_bytes(words).len() == 4 * words.len(),
        forall|i: int|
            0 <= i < words.len() ==> words_bytes(words).subrange(4 * i, 4 * i + 4) == u32_le(
                #[trigger] words[i],
            ),
{
    let parts = Seq::new(words.len(), |i: int| u32_le(words[i]));
    lemma_concat_fixed(parts, 4);
    assert forall|i: int| 0 <= i < words.len() implies words_bytes(words).subrange(
        4 * i,
        4 * i + 4,
    ) == u32_le(#[trigger] words[i]) by {
        assert(parts[i] == u32_le(words[i]));
    }
}

/// Where a file holds struct records, one after the other, it holds there
/// the bytes of all of them.
pub proof fn lemma_structs_at(data: Seq<u8>, at: int, structs: Seq<Struct>)
    requires
        at >= 0,
        structs_at(data, at, structs),
    ensures
        bytes_at(data, at, 12 * (structs.len() as int)) == Some(structs_bytes(structs)),
{
    let parts = Seq::new(structs.len(), |i: int| structs[i].bytes());
    assert forall|i: int| 0 <= i < parts.len() implies bytes_at(data, at + 12 * i, 12) == Some(
        #[trigger] parts[i],
    ) by {
        assert(bytes_at(data, at + 12 * i, 12) == Some(structs[i].bytes()));
    }
    lemma_concat_at(data, at, 12, parts);
}

/// Where a file holds field records, one after the other, it holds there
/// the bytes of all of them.
pub proof fn lemma_fields_at(data: Seq<u8>, at: int, fields: Seq<Field>)
    requires
        at >= 0,
        fields_at(data, at, fields),
    ensures
        bytes_at(data, at, 12 * (fields.len() as int)) == Some(fields_bytes(fields)),
{
    let parts = Seq::new(fields.len(), |i: int| fields[i].bytes());
    assert forall|i: int| 0 <= i < parts.len() implies bytes_at(data, at + 12 * i, 12) == Some(
        #[trigger] parts[i],
    ) by {
        assert(bytes_at(data, at + 12 * i, 12) == Some(fields[i].bytes()));
    }
    lemma_concat_at(data, at, 12, parts);
}

/// Where a file holds labels, one after the other, it holds there the bytes
/// of all of them.
pub proof fn lemma_labels_at(data: Seq<u8>, at: int, labels: Seq<Label>)
    requires
        at >= 0,
        labels_at(data, at, labels),
    ensures
        bytes_at(data, at, 16 * (labels.len() as int)) == Some(labels_bytes(labels)),
{
    let parts = Seq::new(labels.len(), |i: int| labels[i].0@);
    assert forall|i: int| 0 <= i < parts.len() implies bytes_at(data, at + 16 * i, 16) == Some(
        #[trigger] parts[i],
    ) by {
        assert(bytes_at(data, at + 16 * i, 16) == Some(labels[i].0@));
    }
    lemma_concat_at(data, at, 16, parts);
}

/// Where a file holds numbers of four bytes, one after the other, it holds
/// there the bytes of all of them.
pub proof fn lemma_words_at(data: Seq<u8>, at: int, words: Seq<u32>)
    requires
        at >= 0,
        words_at(data, at, words),
    ensures
        bytes_at(data, at, 4 * (words.len() as int)) == Some(words_bytes(words)),
{
    let parts = Seq::new(words.len(), |i: int| u32_le(words[i]));
    assert forall|i: int| 0 <= i < parts.len() implies bytes_at(data, at + 4 * i, 4) == Some(
        #[trigger] parts[i],
    ) by {
        assert(u32_at(data, at + 4 * i) == Some(words[i]));
        let b = data.subrange(at + 4 * i, at + 4 * i + 4);
        lemma_u32_bytes_round_trip(b);
        assert(b.subrange(0, 4) =~= b);
    }
    lemma_concat_at(data, at, 4, parts);
}

/// Where a file holds the bytes of struct records, it holds there each of
/// the records.
pub proof fn lemma_structs_in(data: Seq<u8>, at: int, structs: Seq<Struct>)
    requires
        at >= 0,
        bytes_at(data, at, 12 * (structs.len() as int)) == Some(structs_bytes(structs)),
    ensures
        structs_at(data, at, structs),
{
    lemma_structs_bytes(structs);
    let w = structs_bytes(structs);
    assert forall|i: int| 0 <= i < structs.len() implies bytes_at(data, at + 12 * i, 12) == Some(
        (#[trigger] structs[i]).bytes(),
    ) by {
        assert(w.subrange(12 * i, 12 * i + 12) == structs[i].bytes());
        assert(data.subrange(at + 12 * i, at + 12 * i + 12) =~= w.subrange(12 * i, 12 * i + 12));
    }
}

/// Where a file holds the bytes of field records, it holds there each of
/// the records.
pub proof fn lemma_fields_in(data: Seq<u8>, at: int, fields: Seq<Field>)
    requires
        at >= 0,
        bytes_at(data, at, 12 * (fields.len() as int)) == Some(fields_bytes(fields)),
    ensures
        fields_at(data, at, fields),
{
    lemma_fields_bytes(fields);
    let w = fields_bytes(fields);
    assert forall|i: int| 0 <= i < fields.len() implies bytes_at(data, at + 12 * i, 12) == Some(
        (#[trigger] fields[i]).bytes(),
    ) by {
        assert(w.subrange(12 * i, 12 * i + 12) == fields[i].bytes());
        assert(data.subrange(at + 12 * i, at + 12 * i + 12) =~= w.subrange(12 * i, 12 * i + 12));
    }
}

/// Where a file holds the bytes of labels, it holds there each of the
/// labels.
pub proof fn lemma_labels_in(data: Seq<u8>, at: int, labels: Seq<Label>)
    requires
        at >= 0,
        bytes_at(data, at, 16 * (labels.len() as int)) == Some(labels_bytes(labels)),
    ensures
        labels_at(data, at, labels),
{
    lemma_labels_bytes(labels);
    let w = labels_bytes(labels);
    assert forall|i: int| 0 <= i < labels.len() implies bytes_at(data, at + 16 * i, 16) == Some(
        (#[trigger] labels[i]).0@,
    ) by {
        assert(w.subrange(16 * i, 16 * i + 16) == labels[i].0@);
        assert(data.subrange(at + 16 * i, at + 16 * i + 16) =~= w.subrange(16 * i, 16 * i + 16));
    }
}

/// Where a file holds the bytes of numbers of four bytes, it holds there
/// each of the numbers.
pub proof fn lemma_words_in(data: Seq<u8>, at: int, words: Seq<u32>)
    requires
        at >= 0,
        bytes_at(data, at, 4 * (words.len() as int)) == Some(words_bytes(words)),
    ensures
        words_at(data, at, words),
{
    lemma_words_bytes(words);
    let w = words_bytes(words);
    assert forall|i: int| 0 <= i < words.len() implies u32_at(data, at + 4 * i) == Some(
        #[trigger] words[i],
    ) by {
        assert(w.subrange(4 * i, 4 * i + 4) == u32_le(words[i]));
        assert(data.subrange(at + 4 * i, at + 4 * i + 4) =~= w.subrange(4 * i, 4 * i + 4));
        lemma_u32_round_trip(words[i]);
    }
}

/// A file that holds seven runs of bytes, each behind the one before it and
/// the last one up to its end, is those runs, one after the other.
pub proof fn lemma_runs_make_file(
    data: Seq<u8>,
    a: Seq<u8>,
    b: Seq<u8>,
    c: Seq<u8>,
    d: Seq<u8>,
    e: Seq<u8>,
    f: Seq<u8>,
    g: Seq<u8>,
)
    requires
        bytes_at(data, 0, a.len() as int) == Some(a),
        bytes_at(data, a.len() as int, b.len() as int) == Some(b),
        bytes_at(data, (a.len() + b.len()) as int, c.len() as int) == Some(c),
        bytes_at(data, (a.len() + b.len() + c.len()) as int, d.len() as int) == Some(d),
        bytes_at(data, (a.len() + b.len() + c.len() + d.len()) as int, e.len() as int) == Some(e),
        bytes_at(data, (a.len() + b.len() + c.len() + d.len() + e.len()) as int, f.len() as int) == Some(
            f,
        ),
        bytes_at(data, (a.len() + b.len() + c.len() + d.len() + e.len() + f.len()) as int, g.len() as int)
            == Some(g),
        data.len() == a.len() + b.len() + c.len() + d.len() + e.len() + f.len() + g.len(),
    ensures
        a + b + c + d + e + f + g == data,
{
    assert(a + b + c + d + e + f + g =~= data);
}

/// A file that is seven runs of bytes, one after the other, holds each run
/// behind the one before it.
pub proof fn lemma_file_holds_runs(
    a: Seq<u8>,
    b: Seq<u8>,
    c: Seq<u8>,
    d: Seq<u8>,
    e: Seq<u8>,
    f: Seq<u8>,
    g: Seq<u8>,
)
    ensures
        ({
            let data = a + b + c + d + e + f + g;
            &&& data.len() == a.len() + b.len() + c.len() + d.len() + e.len() + f.len() + g.len()
            &&& bytes_at(data, 0, a.len() as int) == Some(a)
            &&& bytes_at(data, a.len() as int, b.len() as int) == Some(b)
            &&& bytes_at(data, (a.len() + b.len()) as int, c.len() as int) == Some(c)
            &&& bytes_at(data, (a.len() + b.len() + c.len()) as int, d.len() as int) == Some(d)
            &&& bytes_at(data, (a.len() + b.len() + c.len() + d.len()) as int, e.len() as int) == Some(e)
            &&& bytes_at(data, (a.len() + b.len() + c.len() + d.len() + e.len()) as int, f.len() as int)
                == Some(f)
            &&& bytes_at(
                data,
                (a.len() + b.len() + c.len() + d.len() + e.len() + f.len()) as int,
                g.len() as int,
            ) == Some(g)
        }),
{
    let data = a + b + c + d + e + f + g;
    let o1 = a.len() as int;
    let o2 = o1 + b.len();
    let o3 = o2 + c.len();
    let o4 = o3 + d.len();
    let o5 = o4 + e.len();
    let o6 = o5 + f.len();
    assert(data.subrange(0, o1) =~= a);
    assert(data.subrange(o1, o2) =~= b);
    assert(data.subrange(o2, o3) =~= c);
    assert(data.subrange(o3, o4) =~= d);
    assert(data.subrange(o4, o5) =~= e);
    assert(data.subrange(o5, o6) =~= f);
    assert(data.subrange(o6, o6 + g.len()) =~= g);
    assert(a =~= Seq::<u8>::empty() <==> a.len() == 0);
    assert(b =~= Seq::<u8>::empty() <==> b.len() == 0);
    assert(c =~= Seq::<u8>::empty() <==> c.len() == 0);
    assert(d =~= Seq::<u8>::empty() <==> d.len() == 0);
    assert(e =~= Seq::<u8>::empty() <==> e.len() == 0);
    assert(f =~= Seq::<u8>::empty() <==> f.len() == 0);
    assert(g =~= Seq::<u8>::empty() <==> g.len() == 0);
}

/// A file in the usual layout is written as the bytes that it was read
/// from: reading a file and writing what was read gives the file back,
/// byte for byte.
#[verifier::rlimit(40)]
pub proof fn lemma_write_read(gff: Gff, data: Seq<u8>)
    requires
        gff.read_from(data, 0),
        gff.header.packed(data.len() as int),
    ensures
        gff.bytes() == data,
{
    let h = gff.header;
    let a = h.bytes();
    let b = structs_bytes(gff.structs@);
    let c = fields_bytes(gff.fields@);
    let d = labels_bytes(gff.labels@);
    let e = gff.field_data@;
    let f = words_bytes(gff.field_indices@);
    let g = words_bytes(gff.list_indices@);
    assert(a.len() == 56) by {
        crate::header::lemma_header_parts(h);
    }
    assert(b.len() == 12 * h.structs.count && bytes_at(data, 56, b.len() as int) == Some(b)) by {
        lemma_structs_bytes(gff.structs@);
        lemma_structs_at(data, h.structs.offset as int, gff.structs@);
    }
    assert(c.len() == 12 * h.fields.count && bytes_at(
        data,
        h.fields.offset as int,
        c.len() as int,
    ) == Some(c)) by {
        lemma_fields_bytes(gff.fields@);
        lemma_fields_at(data, h.fields.offset as int, gff.fields@);
    }
    assert(d.len() == 16 * h.labels.count && bytes_at(
        data,
        h.labels.offset as int,
        d.len() as int,
    ) == Some(d)) by {
        lemma_labels_bytes(gff.labels@);
        lemma_labels_at(data, h.labels.offset as int, gff.labels@);
    }
    assert(e.len() == h.field_data.count && bytes_at(
        data,
        h.field_data.offset as int,
        e.len() as int,
    ) == Some(e));
    assert(f.len() == h.field_indices.count && bytes_at(
        data,
        h.field_indices.offset as int,
        f.len() as int,
    ) == Some(f)) by {
        lemma_words_bytes(gff.field_indices@);
        lemma_words_at(data, h.field_indices.offset as int, gff.field_indices@);
    }
    assert(g.len() == h.list_indices.count && bytes_at(
        data,
        h.list_indices.offset as int,
        g.len() as int,
    ) == Some(g)) by {
        lemma_words_bytes(gff.list_indices@);
        lemma_words_at(data, h.list_indices.offset as int, gff.list_indices@);
    }
    lemma_runs_make_file(data, a, b, c, d, e, f, g);
}

/// What the bytes of a consistent file are read as is what was written:
/// writing a file and reading what was written gives the file back.
#[verifier::rlimit(40)]
pub proof fn lemma_read_write(gff: Gff)
    requires
        gff.consistent(),
    ensures
        gff.read_from(gff.bytes(), 0),
        Gff::sections_fit(gff.bytes(), gff.header),
        gff.header.packed(gff.bytes().len() as int),
{
    let h = gff.header;
    let data = gff.bytes();
    let a = h.bytes();
    let b = structs_bytes(gff.structs@);
    let c = fields_bytes(gff.fields@);
    let d = labels_bytes(gff.labels@);
    let e = gff.field_data@;
    let f = words_bytes(gff.field_indices@);
    let g = words_bytes(gff.list_indices@);
    assert(a.len() == 56) by {
        crate::header::lemma_header_parts(h);
    }
    assert(b.len() == 12 * h.structs.count) by {
        lemma_structs_bytes(gff.structs@);
    }
    assert(c.len() == 12 * h.fields.count) by {
        lemma_fields_bytes(gff.fields@);
    }
    assert(d.len() == 16 * h.labels.count) by {
        lemma_labels_bytes(gff.labels@);
    }
    assert(f.len() == h.field_indices.count) by {
        lemma_words_bytes(gff.field_indices@);
    }
    assert(g.len() == h.list_indices.count) by {
        lemma_words_bytes(gff.list_indices@);
    }
    lemma_file_holds_runs(a, b, c, d, e, f, g);
    assert(structs_at(data, h.structs.offset as int, gff.structs@)) by {
        lemma_structs_in(data, h.structs.offset as int, gff.structs@);
    }
    assert(fields_at(data, h.fields.offset as int, gff.fields@)) by {
        lemma_fields_in(data, h.fields.offset as int, gff.fields@);
    }
    assert(labels_at(data, h.labels.offset as int, gff.labels@)) by {
        lemma_labels_in(data, h.labels.offset as int, gff.labels@);
    }
    assert(words_at(data, h.field_indices.offset as int, gff.field_indices@)) by {
        lemma_words_in(data, h.field_indices.offset as int, gff.field_indices@);
    }
    assert(words_at(data, h.list_indices.offset as int, gff.list_indices@)) by {
        lemma_words_in(data, h.list_indices.offset as int, gff.list_indices@);
    }
}

/// The number at the start of a byte sequence is the number at the start of
/// its first four bytes.
pub proof fn lemma_le_u32_prefix(b: Seq<u8>)
    requires
        b.len() >= 4,
    ensures
        le_u32(b) == le_u32(b.subrange(0, 4)),
{
}

/// A struct record is what its own 12 bytes are read as.
pub proof fn lemma_struct_round_trip(s: Struct)
    ensures
        s.bytes().len() == 12,
        Struct::parse(s.bytes()) == s,
{
    lemma_u32_round_trip(s.tag);
    lemma_u32_round_trip(s.offset);
    lemma_u32_round_trip(s.fields);
    assert(s.bytes().subrange(4, 8) =~= u32_le(s.offset));
    assert(s.bytes().subrange(8, 12) =~= u32_le(s.fields));
    assert(le_u32(s.bytes()) == le_u32(u32_le(s.tag)));
}

/// Twelve bytes are what the struct record that they are read as is written
/// as.
pub proof fn lemma_struct_bytes(b: Seq<u8>)
    requires
        b.len() == 12,
    ensures
        Struct::parse(b).bytes() == b,
{
    lemma_u32_bytes_round_trip(b);
    lemma_u32_bytes_round_trip(b.subrange(4, 8));
    lemma_u32_bytes_round_trip(b.subrange(8, 12));
    assert(b.subrange(4, 8).subrange(0, 4) =~= b.subrange(4, 8));
    assert(b.subrange(8, 12).subrange(0, 4) =~= b.subrange(8, 12));
    assert(Struct::parse(b).bytes() =~= b);
}

/// A field record is read from its own 12 bytes, and 12 bytes are what the
/// field record that is read from them is written as.
pub proof fn lemma_field_round_trip(f: Field, b: Seq<u8>)
    ensures
        f.bytes().len() == 12,
        f.parsed_from(f.bytes()),
        b.len() == 12 && f.parsed_from(b) ==> f.bytes() == b,
{
    lemma_u32_round_trip(f.tag);
    lemma_u32_round_trip(f.label);
    assert(f.bytes().subrange(4, 8) =~= u32_le(f.label));
    assert(f.bytes().subrange(8, 12) =~= f.data@);
    assert(le_u32(f.bytes()) == le_u32(u32_le(f.tag)));
    if b.len() == 12 && f.parsed_from(b) {
        lemma_u32_bytes_round_trip(b);
        lemma_u32_bytes_round_trip(b.subrange(4, 8));
        assert(b.subrange(4, 8).subrange(0, 4) =~= b.subrange(4, 8));
        assert(f.bytes() =~= b);
    }
}

} // verus!
