//! Typed indices into the six sections of a GFF file. Each knows the section
//! that it points into and the size of the records there, so that an index
//! into one section is not mistaken for one into another.

use crate::header::Header;
use vstd::prelude::*;

verus! {

/// An index that, with the header of the file, gives the place of some data
/// in the file.
pub trait Index {
    /// The offset, in bytes from the start of the file, of what the index
    /// points to.
    spec fn spec_offset(&self, header: &Header) -> int;

    /// The offset, in bytes from the start of the file, of what the index
    /// points to.
    fn offset(&self, header: &Header) -> (at: u64)
        ensures
            at == self.spec_offset(header),
    ;
}

/// The number of a struct of the file.
#[derive(Debug, PartialEq, Eq, Clone, Copy)]
pub struct StructIndex(pub u32);

impl Index for StructIndex {
    open spec fn spec_offset(&self, header: &Header) -> int {
        header.structs.offset + self.0 * 12
    }

    fn offset(&self, header: &Header) -> (at: u64) {
        header.structs.offset as u64 + self.0 as u64 * 12
    }
}

impl vstd::std_specs::convert::FromSpecImpl<u32> for StructIndex {
    open spec fn obeys_from_spec() -> bool {
        true
    }

    open spec fn from_spec(value: u32) -> StructIndex {
        StructIndex(value)
    }
}

impl From<u32> for StructIndex {
    fn from(value: u32) -> (index: StructIndex) {
        StructIndex(value)
    }
}

/// The number of a field in the list of the fields of all structs of the file.
#[derive(Debug, PartialEq, Eq, Clone, Copy)]
pub struct FieldIndex(pub u32);

impl Index for FieldIndex {
    open spec fn spec_offset(&self, header: &Header) -> int {
        header.fields.offset + self.0 * 12
    }

    fn offset(&self, header: &Header) -> (at: u64) {
        header.fields.offset as u64 + self.0 as u64 * 12
    }
}

impl vstd::std_specs::convert::FromSpecImpl<u32> for FieldIndex {
    open spec fn obeys_from_spec() -> bool {
        true
    }

    open spec fn from_spec(value: u32) -> FieldIndex {
        FieldIndex(value)
    }
}

impl From<u32> for FieldIndex {
    fn from(value: u32) -> (index: FieldIndex) {
        FieldIndex(value)
    }
}

/// The number of a label in the list of the labels of the file.
#[derive(Debug, PartialEq, Eq, Clone, Copy)]
pub struct LabelIndex(pub u32);

impl Index for LabelIndex {
    open spec fn spec_offset(&self, header: &Header) -> int {
        header.labels.offset + self.0 * 16
    }

    fn offset(&self, header: &Header) -> (at: u64) {
        header.labels.offset as u64 + self.0 as u64 * 16
    }
}

impl vstd::std_specs::convert::FromSpecImpl<u32> for LabelIndex {
    open spec fn obeys_from_spec() -> bool {
        true
    }

    open spec fn from_spec(value: u32) -> LabelIndex {
        LabelIndex(value)
    }
}

impl From<u32> for LabelIndex {
    fn from(value: u32) -> (index: LabelIndex) {
        LabelIndex(value)
    }
}

/// The offset, in the field data, of the value of a `Dword64` field.
#[derive(Debug, PartialEq, Eq, Clone, Copy)]
pub struct U64Index(pub u32);

impl Index for U64Index {
    open spec fn spec_offset(&self, header: &Header) -> int {
        header.field_data.offset + self.0
    }

    fn offset(&self, header: &Header) -> (at: u64) {
        header.field_data.offset as u64 + self.0 as u64
    }
}

impl vstd::std_specs::convert::FromSpecImpl<u32> for U64Index {
    open spec fn obeys_from_spec() -> bool {
        true
    }

    open spec fn from_spec(value: u32) -> U64Index {
        U64Index(value)
    }
}

impl From<u32> for U64Index {
    fn from(value: u32) -> (index: U64Index) {
        U64Index(value)
    }
}

/// The offset, in the field data, of the value of an `Int64` field.
#[derive(Debug, PartialEq, Eq, Clone, Copy)]
pub struct I64Index(pub u32);

impl Index for I64Index {
    open spec fn spec_offset(&self, header: &Header) -> int {
        header.field_data.offset + self.0
    }

    fn offset(&self, header: &Header) -> (at: u64) {
        header.field_data.offset as u64 + self.0 as u64
    }
}

impl vstd::std_specs::convert::FromSpecImpl<u32> for I64Index {
    open spec fn obeys_from_spec() -> bool {
        true
    }

    open spec fn from_spec(value: u32) -> I64Index {
        I64Index(value)
    }
}

impl From<u32> for I64Index {
    fn from(value: u32) -> (index: I64Index) {
        I64Index(value)
    }
}

/// The offset, in the field data, of the value of a `Double` field.
#[derive(Debug, PartialEq, Eq, Clone, Copy)]
pub struct F64Index(pub u32);

impl Index for F64Index {
    open spec fn spec_offset(&self, header: &Header) -> int {
        header.field_data.offset + self.0
    }

    fn offset(&self, header: &Header) -> (at: u64) {
        header.field_data.offset as u64 + self.0 as u64
    }
}

impl vstd::std_specs::convert::FromSpecImpl<u32> for F64Index {
    open spec fn obeys_from_spec() -> bool {
        true
    }

    open spec fn from_spec(value: u32) -> F64Index {
        F64Index(value)
    }
}

impl From<u32> for F64Index {
    fn from(value: u32) -> (index: F64Index) {
        F64Index(value)
    }
}

/// The offset, in the field data, of the value of a `String` field.
#[derive(Debug, PartialEq, Eq, Clone, Copy)]
pub struct StringIndex(pub u32);

impl Index for StringIndex {
    open spec fn spec_offset(&self, header: &Header) -> int {
        header.field_data.offset + self.0
    }

    fn offset(&self, header: &Header) -> (at: u64) {
        header.field_data.offset as u64 + self.0 as u64
    }
}

impl vstd::std_specs::convert::FromSpecImpl<u32> for StringIndex {
    open spec fn obeys_from_spec() -> bool {
        true
    }

    open spec fn from_spec(value: u32) -> StringIndex {
        StringIndex(value)
    }
}

impl From<u32> for StringIndex {
    fn from(value: u32) -> (index: StringIndex) {
        StringIndex(value)
    }
}

/// The offset, in the field data, of the value of a `ResRef` field.
#[derive(Debug, PartialEq, Eq, Clone, Copy)]
pub struct ResRefIndex(pub u32);

impl Index for ResRefIndex {
    open spec fn spec_offset(&self, header: &Header) -> int {
        header.field_data.offset + self.0
    }

    fn offset(&self, header: &Header) -> (at: u64) {
        header.field_data.offset as u64 + self.0 as u64
    }
}

impl vstd::std_specs::convert::FromSpecImpl<u32> for ResRefIndex {
    open spec fn obeys_from_spec() -> bool {
        true
    }

    open spec fn from_spec(value: u32) -> ResRefIndex {
        ResRefIndex(value)
    }
}

impl From<u32> for ResRefIndex {
    fn from(value: u32) -> (index: ResRefIndex) {
        ResRefIndex(value)
    }
}

/// The offset, in the field data, of the value of a `LocString` field.
#[derive(Debug, PartialEq, Eq, Clone, Copy)]
pub struct LocStringIndex(pub u32);

impl Index for LocStringIndex {
    open spec fn spec_offset(&self, header: &Header) -> int {
        header.field_data.offset + self.0
    }

    fn offset(&self, header: &Header) -> (at: u64) {
        header.field_data.offset as u64 + self.0 as u64
    }
}

impl vstd::std_specs::convert::FromSpecImpl<u32> for LocStringIndex {
    open spec fn obeys_from_spec() -> bool {
        true
    }

    open spec fn from_spec(value: u32) -> LocStringIndex {
        LocStringIndex(value)
    }
}

impl From<u32> for LocStringIndex {
    fn from(value: u32) -> (index: LocStringIndex) {
        LocStringIndex(value)
    }
}

/// The offset, in the field data, of the value of a `Void` field.
#[derive(Debug, PartialEq, Eq, Clone, Copy)]
pub struct BinaryIndex(pub u32);

impl Index for BinaryIndex {
    open spec fn spec_offset(&self, header: &Header) -> int {
        header.field_data.offset + self.0
    }

    fn offset(&self, header: &Header) -> (at: u64) {
        header.field_data.offset as u64 + self.0 as u64
    }
}

impl vstd::std_specs::convert::FromSpecImpl<u32> for BinaryIndex {
    open spec fn obeys_from_spec() -> bool {
        true
    }

    open spec fn from_spec(value: u32) -> BinaryIndex {
        BinaryIndex(value)
    }
}

impl From<u32> for BinaryIndex {
    fn from(value: u32) -> (index: BinaryIndex) {
        BinaryIndex(value)
    }
}

/// A place in the field list of a struct with several fields: the offset of
/// the list, in bytes from the start of the section of the field lists, and
/// the number of the entry in the list. The entry holds the number of a field.
#[derive(Debug, PartialEq, Eq, Clone, Copy)]
pub struct FieldIndicesIndex(pub u32, pub u32);

impl Index for FieldIndicesIndex {
    open spec fn spec_offset(&self, header: &Header) -> int {
        header.field_indices.offset + self.0 + self.1 * 4
    }

    fn offset(&self, header: &Header) -> (at: u64) {
        header.field_indices.offset as u64 + self.0 as u64 + self.1 as u64 * 4
    }
}

impl FieldIndicesIndex {
    /// The place of the next entry of the same list. The place behind the
    /// last one that can be told of is the first one again.
    pub open spec fn spec_next(self) -> FieldIndicesIndex {
        FieldIndicesIndex(
            self.0,
            if self.1 == u32::MAX {
                0
            } else {
                (self.1 + 1) as u32
            },
        )
    }

    /// The place of the next entry of the same list.
    pub fn next(self) -> (index: FieldIndicesIndex)
        ensures
            index == self.spec_next(),
    {
        FieldIndicesIndex(
            self.0,
            if self.1 == u32::MAX {
                0
            } else {
                self.1 + 1
            },
        )
    }
}

impl vstd::std_specs::ops::AddSpecImpl<u32> for FieldIndicesIndex {
    open spec fn obeys_add_spec() -> bool {
        true
    }

    open spec fn add_req(self, rhs: u32) -> bool {
        self.1 + rhs <= u32::MAX
    }

    open spec fn add_spec(self, rhs: u32) -> FieldIndicesIndex {
        FieldIndicesIndex(self.0, (self.1 + rhs) as u32)
    }
}

impl core::ops::Add<u32> for FieldIndicesIndex {
    type Output = FieldIndicesIndex;

    /// The place `rhs` entries further on in the same list.
    fn add(self, rhs: u32) -> (index: FieldIndicesIndex) {
        FieldIndicesIndex(self.0, self.1 + rhs)
    }
}

/// A place in the struct list of a list field: the offset of the list, in
/// bytes from the start of the section of the struct lists, and the number
/// of the item in the list. A list starts with its length; the items follow
/// it, and each holds the number of a struct.
#[derive(Debug, PartialEq, Eq, Clone, Copy)]
pub struct ListIndicesIndex(pub u32, pub u32);

impl Index for ListIndicesIndex {
    open spec fn spec_offset(&self, header: &Header) -> int {
        header.list_indices.offset + self.0 + 4 + self.1 * 4
    }

    fn offset(&self, header: &Header) -> (at: u64) {
        header.list_indices.offset as u64 + self.0 as u64 + 4 + self.1 as u64 * 4
    }
}

impl ListIndicesIndex {
    /// The place of the next entry of the same list. The place behind the
    /// last one that can be told of is the first one again.
    pub open spec fn spec_next(self) -> ListIndicesIndex {
        ListIndicesIndex(
            self.0,
            if self.1 == u32::MAX {
                0
            } else {
                (self.1 + 1) as u32
            },
        )
    }

    /// The place of the next entry of the same list.
    pub fn next(self) -> (index: ListIndicesIndex)
        ensures
            index == self.spec_next(),
    {
        ListIndicesIndex(
            self.0,
            if self.1 == u32::MAX {
                0
            } else {
                self.1 + 1
            },
        )
    }
}

impl vstd::std_specs::ops::AddSpecImpl<u32> for ListIndicesIndex {
    open spec fn obeys_add_spec() -> bool {
        true
    }

    open spec fn add_req(self, rhs: u32) -> bool {
        self.1 + rhs <= u32::MAX
    }

    open spec fn add_spec(self, rhs: u32) -> ListIndicesIndex {
        ListIndicesIndex(self.0, (self.1 + rhs) as u32)
    }
}

impl core::ops::Add<u32> for ListIndicesIndex {
    type Output = ListIndicesIndex;

    /// The place `rhs` entries further on in the same list.
    fn add(self, rhs: u32) -> (index: ListIndicesIndex) {
        ListIndicesIndex(self.0, self.1 + rhs)
    }
}

} // verus!
