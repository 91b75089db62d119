//! The errors that reading and writing GFF data can end in.

use crate::parser::Token;
use vstd::prelude::*;
use vstd::string::{to_string_from_display_ensures, StringExecFns};

verus! {

/// Why the byte source could not deliver what was asked of it.
#[derive(Debug, Clone, Copy, PartialEq, Eq)]
pub enum IoError {
    /// Fewer bytes are left in the source than the read needs.
    UnexpectedEof,
}

/// Everything that can go wrong while GFF data is read, interpreted or written.
#[derive(Debug, Clone, PartialEq, Eq)]
pub enum Error {
    /// The underlying source or sink failed.
    Io(IoError),
    /// A string could not be decoded or encoded, for instance because it holds
    /// a character that the encoding does not know.
    Encoding(String),
    /// The file holds a field of a type that the format does not define.
    UnknownValue {
        /// The type code found in the field record.
        tag: u32,
        /// The four data bytes of the field record, read as one number.
        value: u32,
    },
    /// The token stream has ended.
    ParsingFinished,
    /// A label may hold at most 16 bytes; the text offered has this many.
    TooLongLabel(usize),
    /// A consumer expected the tokens named by the text and met this one.
    Unexpected(&'static str, Token),
    /// A failure of the layer that builds values out of tokens, in its words.
    Deserialize(String),
    /// A failure of the layer that hands values to the writer, in its words.
    Serialize(String),
}

/// The result type of this library.
pub type Result<T> = core::result::Result<T, Error>;

/// The error of a read that met the end of the source.
pub open spec fn eof() -> Error {
    Error::Io(IoError::UnexpectedEof)
}

impl Token {
    /// The name of the kind of the token.
    pub open spec fn spec_name(self) -> &'static str {
        match self {
            Token::RootBegin { .. } => "RootBegin",
            Token::RootEnd => "RootEnd",
            Token::StructBegin { .. } => "StructBegin",
            Token::StructEnd => "StructEnd",
            Token::ListBegin(_) => "ListBegin",
            Token::ListEnd => "ListEnd",
            Token::ItemBegin { .. } => "ItemBegin",
            Token::ItemEnd => "ItemEnd",
            Token::Label(_) => "Label",
            Token::Value(_) => "Value",
        }
    }

    /// The name of the kind of the token.
    pub fn name(&self) -> (name: &'static str)
        ensures
            name == self.spec_name(),
    {
        match self {
            Token::RootBegin { .. } => "RootBegin",
            Token::RootEnd => "RootEnd",
            Token::StructBegin { .. } => "StructBegin",
            Token::StructEnd => "StructEnd",
            Token::ListBegin(_) => "ListBegin",
            Token::ListEnd => "ListEnd",
            Token::ItemBegin { .. } => "ItemBegin",
            Token::ItemEnd => "ItemEnd",
            Token::Label(_) => "Label",
            Token::Value(_) => "Value",
        }
    }
}

impl Error {
    /// Whether `text` is what tells of this error in words. A number stands
    /// in it as the standard library writes it.
    pub open spec fn told_by(self, text: Seq<char>) -> bool {
        match self {
            Error::Io(IoError::UnexpectedEof) => text == "failed to fill whole buffer"@,
            Error::Encoding(why) => text == why@,
            Error::UnknownValue { tag, value } => exists|t: String, v: String|
                #![trigger to_string_from_display_ensures(&tag, t), to_string_from_display_ensures(&value, v)]
                to_string_from_display_ensures(&tag, t) && to_string_from_display_ensures(
                    &value,
                    v,
                ) && text == "Unknown field value (tag: "@ + t@ + ", value: "@ + v@ + ")"@,
            Error::ParsingFinished => text == "Parsing finished"@,
            Error::TooLongLabel(len) => exists|n: String| #[trigger]
                to_string_from_display_ensures(&len, n) && text
                    == "Too long label: label can contain up to 16 bytes, but string contains "@
                    + n@ + " bytes in UTF-8"@,
            Error::Unexpected(expected, actual) => text == "Expected "@ + expected@ + ", but "@
                + actual.spec_name()@ + " found"@,
            Error::Deserialize(why) => text == why@,
            Error::Serialize(why) => text == why@,
        }
    }

    /// What tells of this error in words.
    pub fn message(&self) -> (text: String)
        ensures
            self.told_by(text@),
    {
        match self {
            Error::Io(IoError::UnexpectedEof) => "failed to fill whole buffer".to_owned(),
            Error::Encoding(why) => why.clone(),
            Error::UnknownValue { tag, value } => {
                let t = tag.to_string();
                let v = value.to_string();
                let mut text = "Unknown field value (tag: ".to_owned();
                text.append(t.as_str());
                text.append(", value: ");
                text.append(v.as_str());
                text.append(")");
                text
            },
            Error::ParsingFinished => "Parsing finished".to_owned(),
            Error::TooLongLabel(len) => {
                let n = len.to_string();
                let mut text =
                    "Too long label: label can contain up to 16 bytes, but string contains ".to_owned();
                text.append(n.as_str());
                text.append(" bytes in UTF-8");
                text
            },
            Error::Unexpected(expected, actual) => {
                let mut text = "Expected ".to_owned();
                text.append(expected);
                text.append(", but ");
                text.append(actual.name());
                text.append(" found");
                text
            },
            Error::Deserialize(why) => why.clone(),
            Error::Serialize(why) => why.clone(),
        }
    }
}

} // verus!
