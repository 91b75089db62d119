//! The values that the fields of a GFF struct hold, but for structs and
//! lists.

use crate::error::{Error, Result};
use crate::index::{
    BinaryIndex, F64Index, I64Index, LocStringIndex, ResRefIndex, StringIndex, U64Index,
};
use crate::raw::FieldType;
use crate::resref::ResRef;
use crate::string::LocString;
use vstd::prelude::*;

verus! {

/// The value of a field as far as the field record holds it: the value
/// itself where it fits into the four data bytes of the record, else the
/// place of the value in the field data of the file.
///
/// A floating-point number is held as its bits.
#[derive(Debug, Clone, Copy, PartialEq, Eq)]
pub enum SimpleValueRef {
    /// An unsigned number of one byte.
    Byte(u8),
    /// A character of one byte, kept as a signed number.
    Char(i8),
    /// An unsigned number of two bytes.
    Word(u16),
    /// A signed number of two bytes.
    Short(i16),
    /// An unsigned number of four bytes.
    Dword(u32),
    /// A signed number of four bytes.
    Int(i32),
    /// The place of an unsigned number of eight bytes.
    Dword64(U64Index),
    /// The place of a signed number of eight bytes.
    Int64(I64Index),
    /// The bits of a floating-point number of four bytes.
    Float(u32),
    /// The place of a floating-point number of eight bytes.
    Double(F64Index),
    /// The place of a text.
    String(StringIndex),
    /// The place of the name of a resource.
    ResRef(ResRefIndex),
    /// The place of a localized string.
    LocString(LocStringIndex),
    /// The place of a run of bytes.
    Void(BinaryIndex),
}

/// The value of a field, read in full.
///
/// A floating-point number is held as its bits.
#[derive(Debug, Clone, PartialEq, Eq)]
pub enum SimpleValue {
    /// An unsigned number of one byte.
    Byte(u8),
    /// A character of one byte, kept as a signed number.
    Char(i8),
    /// An unsigned number of two bytes.
    Word(u16),
    /// A signed number of two bytes.
    Short(i16),
    /// An unsigned number of four bytes.
    Dword(u32),
    /// A signed number of four bytes.
    Int(i32),
    /// An unsigned number of eight bytes.
    Dword64(u64),
    /// A signed number of eight bytes.
    Int64(i64),
    /// The bits of a floating-point number of four bytes.
    Float(u32),
    /// The bits of a floating-point number of eight bytes.
    Double(u64),
    /// A text.
    String(String),
    /// The name of a resource.
    ResRef(ResRef),
    /// A localized string.
    LocString(LocString),
    /// A run of bytes.
    Void(Vec<u8>),
}

impl SimpleValueRef {
    /// What a field record of type `tag`, whose four data bytes are the
    /// number `data`, holds. The types with codes 0 to 13 hold a value; a
    /// struct, a list or an unknown code does not.
    pub open spec fn of(tag: u32, data: u32) -> Result<SimpleValueRef> {
        match tag {
            0u32 => Ok(SimpleValueRef::Byte((data % 0x100) as u8)),
            1u32 => Ok(SimpleValueRef::Char(((data % 0x100) as u8) as i8)),
            2u32 => Ok(SimpleValueRef::Word((data % 0x1_0000) as u16)),
            3u32 => Ok(SimpleValueRef::Short(((data % 0x1_0000) as u16) as i16)),
            4u32 => Ok(SimpleValueRef::Dword(data)),
            5u32 => Ok(SimpleValueRef::Int(data as i32)),
            6u32 => Ok(SimpleValueRef::Dword64(U64Index(data))),
            7u32 => Ok(SimpleValueRef::Int64(I64Index(data))),
            8u32 => Ok(SimpleValueRef::Float(data)),
            9u32 => Ok(SimpleValueRef::Double(F64Index(data))),
            10u32 => Ok(SimpleValueRef::String(StringIndex(data))),
            11u32 => Ok(SimpleValueRef::ResRef(ResRefIndex(data))),
            12u32 => Ok(SimpleValueRef::LocString(LocStringIndex(data))),
            13u32 => Ok(SimpleValueRef::Void(BinaryIndex(data))),
            _ => Err(Error::UnknownValue { tag, value: data }),
        }
    }

    /// The type of the field that holds this value.
    pub open spec fn spec_field_type(self) -> FieldType {
        match self {
            SimpleValueRef::Byte(_) => FieldType::Byte,
            SimpleValueRef::Char(_) => FieldType::Char,
            SimpleValueRef::Word(_) => FieldType::Word,
            SimpleValueRef::Short(_) => FieldType::Short,
            SimpleValueRef::Dword(_) => FieldType::Dword,
            SimpleValueRef::Int(_) => FieldType::Int,
            SimpleValueRef::Dword64(_) => FieldType::Dword64,
            SimpleValueRef::Int64(_) => FieldType::Int64,
            SimpleValueRef::Float(_) => FieldType::Float,
            SimpleValueRef::Double(_) => FieldType::Double,
            SimpleValueRef::String(_) => FieldType::String,
            SimpleValueRef::ResRef(_) => FieldType::ResRef,
            SimpleValueRef::LocString(_) => FieldType::LocString,
            SimpleValueRef::Void(_) => FieldType::Void,
        }
    }

    /// The number that the four data bytes of the field record hold for this
    /// value. A value of fewer than four bytes takes the low bytes; the
    /// others are zero.
    pub open spec fn spec_data(self) -> u32 {
        match self {
            SimpleValueRef::Byte(v) => v as u32,
            SimpleValueRef::Char(v) => (v as u8) as u32,
            SimpleValueRef::Word(v) => v as u32,
            SimpleValueRef::Short(v) => (v as u16) as u32,
            SimpleValueRef::Dword(v) => v,
            SimpleValueRef::Int(v) => v as u32,
            SimpleValueRef::Dword64(i) => i.0,
            SimpleValueRef::Int64(i) => i.0,
            SimpleValueRef::Float(v) => v,
            SimpleValueRef::Double(i) => i.0,
            SimpleValueRef::String(i) => i.0,
            SimpleValueRef::ResRef(i) => i.0,
            SimpleValueRef::LocString(i) => i.0,
            SimpleValueRef::Void(i) => i.0,
        }
    }

    /// What a field record of type `tag`, whose four data bytes are the
    /// number `data`, holds.
    pub fn decode(tag: u32, data: u32) -> (r: Result<SimpleValueRef>)
        ensures
            r == SimpleValueRef::of(tag, data),
    {
        Ok(
            match tag {
                0 => SimpleValueRef::Byte((data % 0x100) as u8),
                1 => SimpleValueRef::Char(((data % 0x100) as u8) as i8),
                2 => SimpleValueRef::Word((data % 0x1_0000) as u16),
                3 => SimpleValueRef::Short(((data % 0x1_0000) as u16) as i16),
                4 => SimpleValueRef::Dword(data),
                5 => SimpleValueRef::Int(data as i32),
                6 => SimpleValueRef::Dword64(U64Index(data)),
                7 => SimpleValueRef::Int64(I64Index(data)),
                8 => SimpleValueRef::Float(data),
                9 => SimpleValueRef::Double(F64Index(data)),
                10 => SimpleValueRef::String(StringIndex(data)),
                11 => SimpleValueRef::ResRef(ResRefIndex(data)),
                12 => SimpleValueRef::LocString(LocStringIndex(data)),
                13 => SimpleValueRef::Void(BinaryIndex(data)),
                tag => return Err(Error::UnknownValue { tag, value: data }),
            },
        )
    }

    /// The type of the field that holds this value.
    pub fn field_type(&self) -> (t: FieldType)
        ensures
            t == self.spec_field_type(),
    {
        match *self {
            SimpleValueRef::Byte(_) => FieldType::Byte,
            SimpleValueRef::Char(_) => FieldType::Char,
            SimpleValueRef::Word(_) => FieldType::Word,
            SimpleValueRef::Short(_) => FieldType::Short,
            SimpleValueRef::Dword(_) => FieldType::Dword,
            SimpleValueRef::Int(_) => FieldType::Int,
            SimpleValueRef::Dword64(_) => FieldType::Dword64,
            SimpleValueRef::Int64(_) => FieldType::Int64,
            SimpleValueRef::Float(_) => FieldType::Float,
            SimpleValueRef::Double(_) => FieldType::Double,
            SimpleValueRef::String(_) => FieldType::String,
            SimpleValueRef::ResRef(_) => FieldType::ResRef,
            SimpleValueRef::LocString(_) => FieldType::LocString,
            SimpleValueRef::Void(_) => FieldType::Void,
        }
    }

    /// The number that the four data bytes of the field record hold for this
    /// value.
    pub fn data(&self) -> (data: u32)
        ensures
            data == self.spec_data(),
    {
        match *self {
            SimpleValueRef::Byte(v) => v as u32,
            SimpleValueRef::Char(v) => (v as u8) as u32,
            SimpleValueRef::Word(v) => v as u32,
            SimpleValueRef::Short(v) => (v as u16) as u32,
            SimpleValueRef::Dword(v) => v,
            SimpleValueRef::Int(v) => v as u32,
            SimpleValueRef::Dword64(i) => i.0,
            SimpleValueRef::Int64(i) => i.0,
            SimpleValueRef::Float(v) => v,
            SimpleValueRef::Double(i) => i.0,
            SimpleValueRef::String(i) => i.0,
            SimpleValueRef::ResRef(i) => i.0,
            SimpleValueRef::LocString(i) => i.0,
            SimpleValueRef::Void(i) => i.0,
        }
    }
}

/// A value is what a field record with its type and its data holds.
pub proof fn lemma_value_round_trip(value: SimpleValueRef)
    ensures
        SimpleValueRef::of(value.spec_field_type().spec_code(), value.spec_data()) == Ok::<
            SimpleValueRef,
            Error,
        >(value),
{
    match value {
        SimpleValueRef::Char(v) => {
            assert(((((v as u8) as u32) % 0x100) as u8) as i8 == v) by (bit_vector);
        },
        SimpleValueRef::Short(v) => {
            assert(((((v as u16) as u32) % 0x1_0000) as u16) as i16 == v) by (bit_vector);
        },
        SimpleValueRef::Int(v) => {
            assert((v as u32) as i32 == v) by (bit_vector);
        },
        _ => {},
    }
}

/// A field record that holds a value has the type of that value, and a code
/// from 0 to 13.
pub proof fn lemma_value_type(tag: u32, data: u32)
    ensures
        SimpleValueRef::of(tag, data) matches Ok(value) ==> value.spec_field_type().spec_code()
            == tag,
        SimpleValueRef::of(tag, data) is Ok <==> tag <= 13,
{
}

} // verus!
