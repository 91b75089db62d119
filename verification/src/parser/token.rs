//! The tokens that the parser emits.

use crate::index::LabelIndex;
use crate::parser::Tag;
use crate::value::SimpleValueRef;
use vstd::prelude::*;

verus! {

/// One element of the token stream of a GFF file.
///
/// The tokens of a file follow this grammar:
///
/// ```text
/// Root   = RootBegin Field* RootEnd
/// Struct = StructBegin Field* StructEnd
/// Item   = ItemBegin Field* ItemEnd
/// Field  = Label (Value | Struct | List)
/// List   = ListBegin Item* ListEnd
/// ```
#[derive(Debug, Clone, Copy, PartialEq, Eq)]
pub enum Token {
    /// The struct at the top of the file begins.
    RootBegin {
        /// The type tag of the struct.
        tag: Tag,
        /// The number of fields of the struct.
        count: u32,
    },
    /// The struct at the top of the file ends, and the stream with it.
    RootEnd,
    /// A struct that is the value of a field begins.
    StructBegin {
        /// The type tag of the struct.
        tag: Tag,
        /// The number of fields of the struct.
        count: u32,
    },
    /// A struct that is the value of a field ends.
    StructEnd,
    /// A list begins; it holds this many items.
    ListBegin(u32),
    /// A list ends.
    ListEnd,
    /// A struct that is an item of a list begins.
    ItemBegin {
        /// The type tag of the struct.
        tag: Tag,
        /// The number of fields of the struct.
        count: u32,
        /// The number of the item in its list, counted from 0.
        index: u32,
    },
    /// A struct that is an item of a list ends.
    ItemEnd,
    /// A field begins; its label has this number. The value of the field
    /// follows: a `Value`, a struct or a list.
    Label(LabelIndex),
    /// The value of a field that is neither a struct nor a list.
    Value(SimpleValueRef),
}

impl Token {
    /// Whether the token opens a struct or a list.
    pub open spec fn spec_is_begin(self) -> bool {
        self is RootBegin || self is StructBegin || self is ItemBegin || self is ListBegin
    }

    /// Whether the token closes a struct or a list.
    pub open spec fn spec_is_end(self) -> bool {
        self is RootEnd || self is StructEnd || self is ItemEnd || self is ListEnd
    }

    /// Whether the token opens a struct or a list.
    pub fn is_begin(&self) -> (b: bool)
        ensures
            b == self.spec_is_begin(),
    {
        matches!(
            *self,
            Token::RootBegin { .. } | Token::StructBegin { .. } | Token::ItemBegin { .. }
                | Token::ListBegin(_)
        )
    }

    /// Whether the token closes a struct or a list.
    pub fn is_end(&self) -> (b: bool)
        ensures
            b == self.spec_is_end(),
    {
        matches!(*self, Token::RootEnd | Token::StructEnd | Token::ItemEnd | Token::ListEnd)
    }
}

} // verus!
