//! The name of a field of a GFF struct.

use crate::error::{Error, Result};
use vstd::prelude::*;
use vstd::slice::slice_subrange;
use vstd::string::StringSliceAdditionalSpecFns;
use vstd::utf8::valid_utf8;

verus! {

/// The number of bytes that a label takes in a file, and the most that its
/// name can have.
pub const LABEL_SIZE: usize = 16;

/// How many bytes stand before the first zero byte of `slot`: all of them
/// where it holds none.
pub open spec fn text_len(slot: Seq<u8>) -> nat
    decreases slot.len(),
{
    if slot.len() == 0 || slot[0] == 0 {
        0
    } else {
        1 + text_len(slot.drop_first())
    }
}

/// `bytes`, filled up with zero bytes to the size of a label.
pub open spec fn padded(bytes: Seq<u8>) -> Seq<u8>
    recommends
        bytes.len() <= LABEL_SIZE,
{
    Seq::new(
        LABEL_SIZE as nat,
        |i: int|
            if i < bytes.len() {
                bytes[i]
            } else {
                0u8
            },
    )
}

/// The name of a field. A file stores it in 16 bytes: the name, then zero
/// bytes as far as room is left. A name of 16 bytes has no zero byte after it.
#[derive(Debug, Clone, Copy, PartialEq, Eq, Hash)]
pub struct Label(pub [u8; 16]);

impl Label {
    /// The name: the bytes before the first zero byte.
    pub open spec fn name(self) -> Seq<u8> {
        self.0@.take(text_len(self.0@) as int)
    }

    /// The length of the name.
    pub fn len(&self) -> (n: usize)
        ensures
            n == self.name().len(),
            n == text_len(self.0@),
            n <= LABEL_SIZE,
    {
        let mut i: usize = 0;
        proof {
            lemma_text_len(self.0@);
        }
        while i < LABEL_SIZE
            invariant
                i <= LABEL_SIZE,
                forall|j: int| 0 <= j < i ==> self.0@[j] != 0,
            decreases LABEL_SIZE - i,
        {
            if self.0[i] == 0 {
                proof {
                    lemma_text_len_is(self.0@, i as int);
                }
                return i;
            }
            i += 1;
        }
        proof {
            lemma_text_len_is(self.0@, 16);
        }
        i
    }

    /// The name as text, where it is valid UTF-8.
    pub fn as_str(&self) -> (r: core::result::Result<&str, core::str::Utf8Error>)
        ensures
            r is Ok <==> valid_utf8(self.name()),
            r matches Ok(s) ==> s.spec_bytes() == self.name(),
    {
        let n = self.len();
        assert(self.0@.subrange(0, n as int) =~= self.name());
        core::str::from_utf8(slice_subrange(self.0.as_slice(), 0, n))
    }

    /// The 16 bytes of the label.
    pub fn as_ref(&self) -> (bytes: &[u8])
        ensures
            bytes@ == self.0@,
    {
        self.0.as_slice()
    }

    /// The label with the name given, where it has at most 16 bytes. A name
    /// that holds a zero byte ends there when it is read back.
    pub fn from_bytes(bytes: &[u8]) -> (r: Result<Label>)
        ensures
            match r {
                Ok(label) => bytes@.len() <= LABEL_SIZE && label.0@ == padded(bytes@),
                Err(e) => bytes@.len() > LABEL_SIZE && e == Error::TooLongLabel(
                    bytes@.len() as usize,
                ),
            },
    {
        if bytes.len() > LABEL_SIZE {
            return Err(Error::TooLongLabel(bytes.len()));
        }
        let mut storage = [0u8; 16];
        let mut i: usize = 0;
        while i < bytes.len()
            invariant
                i <= bytes@.len() <= LABEL_SIZE,
                forall|j: int| 0 <= j < i ==> storage@[j] == bytes@[j],
                forall|j: int| i <= j < 16 ==> storage@[j] == 0,
            decreases bytes@.len() - i,
        {
            storage[i] = bytes[i];
            i += 1;
        }
        assert(storage@ =~= padded(bytes@));
        Ok(Label(storage))
    }
}

impl vstd::std_specs::convert::FromSpecImpl<[u8; 16]> for Label {
    open spec fn obeys_from_spec() -> bool {
        true
    }

    open spec fn from_spec(arr: [u8; 16]) -> Label {
        Label(arr)
    }
}

impl From<[u8; 16]> for Label {
    fn from(arr: [u8; 16]) -> (label: Label) {
        Label(arr)
    }
}

impl core::str::FromStr for Label {
    type Err = Error;

    /// The label with the text given as its name, where its UTF-8 form has
    /// at most 16 bytes.
    fn from_str(value: &str) -> (r: Result<Label>)
        ensures
            match r {
                Ok(label) => value.spec_bytes().len() <= LABEL_SIZE && label.0@ == padded(
                    value.spec_bytes(),
                ),
                Err(e) => value.spec_bytes().len() > LABEL_SIZE && e == Error::TooLongLabel(
                    value.spec_bytes().len() as usize,
                ),
            },
    {
        Label::from_bytes(value.as_bytes())
    }
}

/// What `text_len` is: no byte before it is zero, and the byte at it is,
/// where there is one.
pub proof fn lemma_text_len(slot: Seq<u8>)
    ensures
        text_len(slot) <= slot.len(),
        forall|i: int| 0 <= i < text_len(slot) ==> slot[i] != 0,
        text_len(slot) < slot.len() ==> slot[text_len(slot) as int] == 0,
    decreases slot.len(),
{
    if slot.len() == 0 || slot[0] == 0 {
    } else {
        let rest = slot.drop_first();
        lemma_text_len(rest);
        assert forall|i: int| 0 <= i < text_len(slot) implies slot[i] != 0 by {
            if i > 0 {
                assert(slot[i] == rest[i - 1]);
            }
        }
        if text_len(slot) < slot.len() {
            assert(slot[text_len(slot) as int] == rest[text_len(rest) as int]);
        }
    }
}

/// The place of the first zero byte, or the length where there is none, is
/// what `text_len` gives.
pub proof fn lemma_text_len_is(slot: Seq<u8>, n: int)
    requires
        0 <= n <= slot.len(),
        forall|i: int| 0 <= i < n ==> slot[i] != 0,
        n < slot.len() ==> slot[n] == 0,
    ensures
        text_len(slot) == n,
{
    lemma_text_len(slot);
    let m = text_len(slot) as int;
    if m < n {
        assert(slot[m] == 0);
    } else if n < m {
        assert(slot[n] != 0);
    }
}

/// The name of a label has at most 16 bytes, and none of them is zero.
pub proof fn lemma_name_len(label: Label)
    ensures
        label.name().len() <= LABEL_SIZE,
        forall|i: int| 0 <= i < label.name().len() ==> label.name()[i] != 0,
{
    lemma_text_len(label.0@);
}

/// A name of at most 16 bytes, none of them zero, is the name of the label
/// made from it. A name of exactly 16 bytes fills the label.
pub proof fn lemma_name_of_padded(bytes: Seq<u8>, label: Label)
    requires
        bytes.len() <= LABEL_SIZE,
        forall|i: int| 0 <= i < bytes.len() ==> bytes[i] != 0,
        label.0@ == padded(bytes),
    ensures
        label.name() == bytes,
        bytes.len() == LABEL_SIZE ==> label.0@ == bytes,
{
    lemma_text_len_is(label.0@, bytes.len() as int);
    assert(label.name() =~= bytes);
    if bytes.len() == LABEL_SIZE {
        assert(label.0@ =~= bytes);
    }
}

} // verus!
