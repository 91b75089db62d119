//! A reference to a game resource, such as the blueprint of an object.

use vstd::prelude::*;
use vstd::string::StringSliceAdditionalSpecFns;
use vstd::utf8::{decode_utf8, encode_utf8, valid_utf8};

verus! {

/// The name of a game resource, as the bytes that the file holds.
#[derive(Debug, Clone, PartialEq, Eq, Hash)]
pub struct ResRef(pub Vec<u8>);

impl ResRef {
    /// The bytes of the name.
    pub open spec fn bytes(self) -> Seq<u8> {
        self.0@
    }

    /// The name as text, where it is valid UTF-8.
    pub fn as_str(&self) -> (r: core::result::Result<&str, core::str::Utf8Error>)
        ensures
            r is Ok <==> valid_utf8(self.bytes()),
            r matches Ok(s) ==> s.spec_bytes() == self.bytes(),
    {
        core::str::from_utf8(self.0.as_slice())
    }

    /// The name as an owned string, where it is valid UTF-8.
    pub fn as_string(self) -> (r: core::result::Result<String, std::string::FromUtf8Error>)
        ensures
            r is Ok <==> valid_utf8(self.bytes()),
            r matches Ok(s) ==> s@ == decode_utf8(self.bytes()),
    {
        String::from_utf8(self.0)
    }
}

impl<'a> vstd::std_specs::convert::FromSpecImpl<&'a str> for ResRef {
    open spec fn obeys_from_spec() -> bool {
        false
    }

    open spec fn from_spec(name: &'a str) -> ResRef {
        arbitrary()
    }
}

impl<'a> From<&'a str> for ResRef {
    /// The reference whose bytes are the UTF-8 form of `name`.
    fn from(name: &'a str) -> (r: ResRef)
        ensures
            r.bytes() == encode_utf8(name@),
    {
        ResRef::named(name)
    }
}

impl ResRef {
    /// The reference whose bytes are the UTF-8 form of `name`.
    pub fn named(name: &str) -> (r: ResRef)
        ensures
            r.bytes() == encode_utf8(name@),
    {
        ResRef(vstd::slice::slice_to_vec(name.as_bytes()))
    }
}

impl core::str::FromStr for ResRef {
    type Err = ();

    /// The reference whose bytes are the UTF-8 form of `name`. There is no
    /// name that is refused.
    fn from_str(name: &str) -> (r: core::result::Result<ResRef, ()>)
        ensures
            r matches Ok(reference) && reference.bytes() == encode_utf8(name@),
    {
        Ok(ResRef::named(name))
    }
}

} // verus!
