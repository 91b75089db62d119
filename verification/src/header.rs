//! The header of a GFF file: what the file is, which version of the format it
//! is written in, and where its six sections lie.

use crate::endian::{le_u32, lemma_u32_bytes_round_trip, lemma_u32_round_trip, u32_bytes, u32_le};
use crate::error::{Error, IoError, Result};
pub use crate::sig::Signature;
pub use crate::ver::Version;
use crate::sig::{lemma_signature_determined, lemma_signature_len};
use crate::source::Source;
use vstd::prelude::*;

verus! {

/// The number of bytes that a header takes.
pub const HEADER_SIZE: usize = 56;

/// Where one section of the file lies, and how much it holds.
#[derive(Debug, Clone, Copy, PartialEq, Eq)]
pub struct Section {
    /// The offset of the section, in bytes from the start of the file.
    pub offset: u32,
    /// How much the section holds: records for the structs, the fields and
    /// the labels, bytes for the other three sections.
    pub count: u32,
}

impl Section {
    /// The eight bytes that stand for this section in a header.
    pub open spec fn bytes(self) -> Seq<u8> {
        u32_le(self.offset) + u32_le(self.count)
    }

    /// The section that the first eight bytes of `b` stand for.
    pub open spec fn parse(b: Seq<u8>) -> Section {
        Section { offset: le_u32(b), count: le_u32(b.subrange(4, 8)) }
    }

    /// Reads the eight bytes of a section.
    pub fn read(reader: &mut Source) -> (r: Result<Section>)
        ensures
            match r {
                Ok(s) => old(reader).ahead(8) matches Some(b) && s == Section::parse(b) && old(reader).advanced(final(reader), 8),
                Err(e) => old(reader).short(final(reader), e, 8),
            },
    {
        if !reader.has(8) {
            return Err(Error::Io(IoError::UnexpectedEof));
        }
        let ghost b = reader.ahead(8)->0;
        let offset = reader.read_u32()?;
        let count = reader.read_u32()?;
        assert(b.subrange(0, 4) =~= old(reader).ahead(4)->0);
        assert(b.subrange(4, 8) =~= reader.data@.subrange(old(reader).pos + 4, old(reader).pos + 8));
        Ok(Section { offset, count })
    }

    /// Appends the eight bytes of the section to `writer`.
    pub fn write(&self, writer: &mut Vec<u8>)
        ensures
            final(writer)@ == old(writer)@ + self.bytes(),
    {
        let offset = u32_bytes(self.offset);
        let count = u32_bytes(self.count);
        writer.extend_from_slice(offset.as_slice());
        writer.extend_from_slice(count.as_slice());
        assert(writer@ =~= old(writer)@ + self.bytes());
    }
}

impl Default for Section {
    /// The section of an empty file: nothing, at offset 0.
    fn default() -> (s: Section)
        ensures
            s == (Section { offset: 0, count: 0 }),
    {
        Section { offset: 0, count: 0 }
    }
}

/// The header of a GFF file.
#[derive(Debug, Clone, Copy, PartialEq, Eq)]
pub struct Header {
    /// What kind of file this is.
    pub signature: Signature,
    /// The version of the format.
    pub version: Version,
    /// The structs of the file; `count` is their number.
    pub structs: Section,
    /// The fields of all structs; `count` is their number.
    pub fields: Section,
    /// The labels of the fields; `count` is their number.
    pub labels: Section,
    /// The values that do not fit into a field record; `count` is in bytes.
    pub field_data: Section,
    /// The field lists of the structs with several fields; `count` is in bytes.
    pub field_indices: Section,
    /// The struct lists of the list fields; `count` is in bytes.
    pub list_indices: Section,
}

impl Header {
    /// The 56 bytes that stand for this header at the start of a file.
    pub open spec fn bytes(self) -> Seq<u8> {
        self.signature.bytes() + self.version.bytes() + self.structs.bytes() + self.fields.bytes()
            + self.labels.bytes() + self.field_data.bytes() + self.field_indices.bytes()
            + self.list_indices.bytes()
    }

    /// The least number of tokens of a file with this header that holds
    /// `lists` lists: an opening and a closing one for each struct and each
    /// list, or one for each field, whichever is more.
    pub open spec fn spec_token_count(self, lists: nat) -> int {
        let size = (self.structs.count + lists) * 2;
        if size >= self.fields.count {
            size
        } else {
            self.fields.count as int
        }
    }

    /// Whether the sections lie in the usual layout in a file of `len`
    /// bytes: the structs behind the header, each other section behind the
    /// one before it, and the end of the file behind the last.
    pub open spec fn packed(self, len: int) -> bool {
        &&& self.structs.offset == 56
        &&& self.fields.offset == self.structs.offset + 12 * self.structs.count
        &&& self.labels.offset == self.fields.offset + 12 * self.fields.count
        &&& self.field_data.offset == self.labels.offset + 16 * self.labels.count
        &&& self.field_indices.offset == self.field_data.offset + self.field_data.count
        &&& self.field_indices.count % 4 == 0
        &&& self.list_indices.offset == self.field_indices.offset + self.field_indices.count
        &&& self.list_indices.count % 4 == 0
        &&& len == self.list_indices.offset + self.list_indices.count
    }

    /// The header of an empty file of the kind given, in the current version
    /// of the format.
    pub fn new(signature: Signature) -> (h: Header)
        ensures
            h.signature == signature,
            h.version == Version::current(),
            h.sections_empty(),
    {
        Header::with_version(signature, Version::v3_2())
    }

    /// Whether all six sections are empty and at offset 0.
    pub open spec fn sections_empty(self) -> bool {
        let empty = Section { offset: 0, count: 0 };
        &&& self.structs == empty
        &&& self.fields == empty
        &&& self.labels == empty
        &&& self.field_data == empty
        &&& self.field_indices == empty
        &&& self.list_indices == empty
    }

    /// The header of an empty file of the kind and version given.
    pub fn with_version(signature: Signature, version: Version) -> (h: Header)
        ensures
            h.signature == signature,
            h.version == version,
            h.sections_empty(),
    {
        Header {
            signature,
            version,
            structs: Section::default(),
            fields: Section::default(),
            labels: Section::default(),
            field_data: Section::default(),
            field_indices: Section::default(),
            list_indices: Section::default(),
        }
    }

    /// Reads the 56 bytes of a header.
    #[verifier::rlimit(40)]
    pub fn read(reader: &mut Source) -> (r: Result<Header>)
        ensures
            match r {
                Ok(h) => old(reader).ahead(56) == Some(h.bytes()) && h.signature.canonical()
                    && old(reader).advanced(final(reader), 56),
                Err(e) => old(reader).short(final(reader), e, 56),
            },
    {
        if !reader.has(HEADER_SIZE) {
            return Err(Error::Io(IoError::UnexpectedEof));
        }
        let ghost b = reader.ahead(56)->0;
        let ghost at = reader.pos as int;
        let signature = Signature::read(reader)?;
        assert(reader.pos == at + 4 && signature.bytes() =~= b.subrange(0, 4));
        let version = Version::read(reader)?;
        assert(reader.pos == at + 8 && version.bytes() =~= b.subrange(4, 8));
        let structs = Section::read(reader)?;
        assert(reader.pos == at + 16 && reader.data@.subrange(at + 8, at + 16) =~= b.subrange(
            8,
            16,
        ));
        let fields = Section::read(reader)?;
        assert(reader.pos == at + 24 && reader.data@.subrange(at + 16, at + 24) =~= b.subrange(
            16,
            24,
        ));
        let labels = Section::read(reader)?;
        assert(reader.pos == at + 32 && reader.data@.subrange(at + 24, at + 32) =~= b.subrange(
            24,
            32,
        ));
        let field_data = Section::read(reader)?;
        assert(reader.pos == at + 40 && reader.data@.subrange(at + 32, at + 40) =~= b.subrange(
            32,
            40,
        ));
        let field_indices = Section::read(reader)?;
        assert(reader.pos == at + 48 && reader.data@.subrange(at + 40, at + 48) =~= b.subrange(
            40,
            48,
        ));
        let list_indices = Section::read(reader)?;
        assert(reader.pos == at + 56 && reader.data@.subrange(at + 48, at + 56) =~= b.subrange(
            48,
            56,
        ));
        let h = Header {
            signature,
            version,
            structs,
            fields,
            labels,
            field_data,
            field_indices,
            list_indices,
        };
        proof {
            lemma_header_assembled(h, b);
        }
        Ok(h)
    }

    /// Appends the 56 bytes of the header to `writer`.
    pub fn write(&self, writer: &mut Vec<u8>)
        ensures
            final(writer)@ == old(writer)@ + self.bytes(),
    {
        self.signature.write(writer);
        self.version.write(writer);
        self.structs.write(writer);
        self.fields.write(writer);
        self.labels.write(writer);
        self.field_data.write(writer);
        self.field_indices.write(writer);
        self.list_indices.write(writer);
        assert(writer@ =~= old(writer)@ + self.bytes());
    }

    /// The least number of tokens of a file with this header that holds
    /// `lists` lists. The header does not say how many lists the file
    /// holds: they are the fields whose type is a list. The size of the
    /// section of the struct lists is no such number: it counts bytes.
    pub fn token_count(&self, lists: u32) -> (n: u64)
        ensures
            n == self.spec_token_count(lists as nat),
    {
        let size: u64 = (self.structs.count as u64 + lists as u64) * 2;
        let fields: u64 = self.fields.count as u64;
        if size >= fields {
            size
        } else {
            fields
        }
    }
}

/// A section is what its own eight bytes are read as.
pub proof fn lemma_section_round_trip(s: Section)
    ensures
        s.bytes().len() == 8,
        Section::parse(s.bytes()) == s,
{
    lemma_u32_round_trip(s.offset);
    lemma_u32_round_trip(s.count);
    assert(s.bytes().subrange(4, 8) =~= u32_le(s.count));
    assert(le_u32(s.bytes()) == le_u32(u32_le(s.offset)));
}

/// Eight bytes are what the section that they are read as is written as.
pub proof fn lemma_section_bytes(b: Seq<u8>)
    requires
        b.len() == 8,
    ensures
        Section::parse(b).bytes() == b,
{
    lemma_u32_bytes_round_trip(b);
    lemma_u32_bytes_round_trip(b.subrange(4, 8));
    assert(b.subrange(4, 8).subrange(0, 4) =~= b.subrange(4, 8));
    assert(Section::parse(b).bytes() =~= b);
}

/// The eight parts of the bytes of a header.
pub proof fn lemma_header_parts(h: Header)
    ensures
        h.bytes().len() == 56,
        h.bytes().subrange(0, 4) == h.signature.bytes(),
        h.bytes().subrange(4, 8) == h.version.bytes(),
        h.structs == Section::parse(h.bytes().subrange(8, 16)),
        h.fields == Section::parse(h.bytes().subrange(16, 24)),
        h.labels == Section::parse(h.bytes().subrange(24, 32)),
        h.field_data == Section::parse(h.bytes().subrange(32, 40)),
        h.field_indices == Section::parse(h.bytes().subrange(40, 48)),
        h.list_indices == Section::parse(h.bytes().subrange(48, 56)),
{
    lemma_signature_len(h.signature);
    lemma_section_round_trip(h.structs);
    lemma_section_round_trip(h.fields);
    lemma_section_round_trip(h.labels);
    lemma_section_round_trip(h.field_data);
    lemma_section_round_trip(h.field_indices);
    lemma_section_round_trip(h.list_indices);
    let b = h.bytes();
    assert(b.subrange(0, 4) =~= h.signature.bytes());
    assert(b.subrange(4, 8) =~= h.version.bytes());
    assert(b.subrange(8, 16) =~= h.structs.bytes());
    assert(b.subrange(16, 24) =~= h.fields.bytes());
    assert(b.subrange(24, 32) =~= h.labels.bytes());
    assert(b.subrange(32, 40) =~= h.field_data.bytes());
    assert(b.subrange(40, 48) =~= h.field_indices.bytes());
    assert(b.subrange(48, 56) =~= h.list_indices.bytes());
}

/// A header whose eight parts are read from the eight parts of 56 bytes is
/// written as those bytes.
pub proof fn lemma_header_assembled(h: Header, b: Seq<u8>)
    requires
        b.len() == 56,
        h.signature.bytes() == b.subrange(0, 4),
        h.version.bytes() == b.subrange(4, 8),
        h.structs == Section::parse(b.subrange(8, 16)),
        h.fields == Section::parse(b.subrange(16, 24)),
        h.labels == Section::parse(b.subrange(24, 32)),
        h.field_data == Section::parse(b.subrange(32, 40)),
        h.field_indices == Section::parse(b.subrange(40, 48)),
        h.list_indices == Section::parse(b.subrange(48, 56)),
    ensures
        h.bytes() == b,
{
    lemma_section_bytes(b.subrange(8, 16));
    lemma_section_bytes(b.subrange(16, 24));
    lemma_section_bytes(b.subrange(24, 32));
    lemma_section_bytes(b.subrange(32, 40));
    lemma_section_bytes(b.subrange(40, 48));
    lemma_section_bytes(b.subrange(48, 56));
    assert(h.bytes() =~= b);
}

/// Two canonical headers that are written as the same bytes are one header.
pub proof fn lemma_header_determined(a: Header, b: Header)
    requires
        a.bytes() == b.bytes(),
        a.signature.canonical(),
        b.signature.canonical(),
    ensures
        a == b,
{
    lemma_header_parts(a);
    lemma_header_parts(b);
    lemma_signature_determined(a.signature, b.signature);
    assert(a.version.0 =~= b.version.0);
}

} // verus!
