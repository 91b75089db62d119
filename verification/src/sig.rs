//! The signature of a GFF file: the four bytes at its start that tell what
//! kind of game data the file holds.

use crate::error::Result;
use crate::source::Source;
use vstd::prelude::*;

verus! {

/// What a file is for. The signature is the first four bytes of the file.
#[derive(Debug, Clone, Copy, PartialEq, Eq, Hash)]
pub enum Signature {
    /// Module information.
    IFO,
    /// Description of an area.
    ARE,
    /// Instances of game objects and dynamic properties of an area.
    GIT,
    /// Comments on an area.
    GIC,
    /// Blueprint of a creature.
    UTC,
    /// Blueprint of a door.
    UTD,
    /// Blueprint of an encounter.
    UTE,
    /// Blueprint of an item.
    UTI,
    /// Blueprint of a placeable.
    UTP,
    /// Blueprint of a sound.
    UTS,
    /// Blueprint of a store.
    UTM,
    /// Blueprint of a trigger.
    UTT,
    /// Blueprint of a waypoint.
    UTW,
    /// Dialog.
    DLG,
    /// Journal.
    JRL,
    /// Description of factions.
    FAC,
    /// Palette.
    ITP,
    /// Plot wizard: plot manager.
    PTM,
    /// Plot wizard: plot blueprint.
    PTT,
    /// Character made by the game.
    BIC,
    /// Any other kind of file, with its four bytes.
    Other([u8; 4]),
}

impl Signature {
    /// The four bytes that stand for this signature in a file.
    pub open spec fn bytes(self) -> Seq<u8> {
        match self {
            Signature::IFO => seq![0x49u8, 0x46u8, 0x4fu8, 0x20u8],
            Signature::ARE => seq![0x41u8, 0x52u8, 0x45u8, 0x20u8],
            Signature::GIT => seq![0x47u8, 0x49u8, 0x54u8, 0x20u8],
            Signature::GIC => seq![0x47u8, 0x49u8, 0x43u8, 0x20u8],
            Signature::UTC => seq![0x55u8, 0x54u8, 0x43u8, 0x20u8],
            Signature::UTD => seq![0x55u8, 0x54u8, 0x44u8, 0x20u8],
            Signature::UTE => seq![0x55u8, 0x54u8, 0x45u8, 0x20u8],
            Signature::UTI => seq![0x55u8, 0x54u8, 0x49u8, 0x20u8],
            Signature::UTP => seq![0x55u8, 0x54u8, 0x50u8, 0x20u8],
            Signature::UTS => seq![0x55u8, 0x54u8, 0x53u8, 0x20u8],
            Signature::UTM => seq![0x55u8, 0x54u8, 0x4du8, 0x20u8],
            Signature::UTT => seq![0x55u8, 0x54u8, 0x54u8, 0x20u8],
            Signature::UTW => seq![0x55u8, 0x54u8, 0x57u8, 0x20u8],
            Signature::DLG => seq![0x44u8, 0x4cu8, 0x47u8, 0x20u8],
            Signature::JRL => seq![0x4au8, 0x52u8, 0x4cu8, 0x20u8],
            Signature::FAC => seq![0x46u8, 0x41u8, 0x43u8, 0x20u8],
            Signature::ITP => seq![0x49u8, 0x54u8, 0x50u8, 0x20u8],
            Signature::PTM => seq![0x50u8, 0x54u8, 0x4du8, 0x20u8],
            Signature::PTT => seq![0x50u8, 0x54u8, 0x54u8, 0x20u8],
            Signature::BIC => seq![0x42u8, 0x49u8, 0x43u8, 0x20u8],
            Signature::Other(sig) => sig@,
        }
    }

    /// The signature that has a name of its own and is written as `bytes`.
    pub open spec fn named(bytes: Seq<u8>) -> Option<Signature> {
        if bytes.len() != 4 || bytes[3] != 0x20 {
            None
        } else {
            match (bytes[0], bytes[1], bytes[2]) {
                (0x49u8, 0x46u8, 0x4fu8) => Some(Signature::IFO),
                (0x41u8, 0x52u8, 0x45u8) => Some(Signature::ARE),
                (0x47u8, 0x49u8, 0x54u8) => Some(Signature::GIT),
                (0x47u8, 0x49u8, 0x43u8) => Some(Signature::GIC),
                (0x55u8, 0x54u8, 0x43u8) => Some(Signature::UTC),
                (0x55u8, 0x54u8, 0x44u8) => Some(Signature::UTD),
                (0x55u8, 0x54u8, 0x45u8) => Some(Signature::UTE),
                (0x55u8, 0x54u8, 0x49u8) => Some(Signature::UTI),
                (0x55u8, 0x54u8, 0x50u8) => Some(Signature::UTP),
                (0x55u8, 0x54u8, 0x53u8) => Some(Signature::UTS),
                (0x55u8, 0x54u8, 0x4du8) => Some(Signature::UTM),
                (0x55u8, 0x54u8, 0x54u8) => Some(Signature::UTT),
                (0x55u8, 0x54u8, 0x57u8) => Some(Signature::UTW),
                (0x44u8, 0x4cu8, 0x47u8) => Some(Signature::DLG),
                (0x4au8, 0x52u8, 0x4cu8) => Some(Signature::JRL),
                (0x46u8, 0x41u8, 0x43u8) => Some(Signature::FAC),
                (0x49u8, 0x54u8, 0x50u8) => Some(Signature::ITP),
                (0x50u8, 0x54u8, 0x4du8) => Some(Signature::PTM),
                (0x50u8, 0x54u8, 0x54u8) => Some(Signature::PTT),
                (0x42u8, 0x49u8, 0x43u8) => Some(Signature::BIC),
                _ => None,
            }
        }
    }

    /// Whether this is the value that `from` gives for its bytes: bytes that
    /// have a name are not held in `Other`.
    pub open spec fn canonical(self) -> bool {
        self matches Signature::Other(sig) ==> Signature::named(sig@) is None
    }

    /// The signature that `sig` is read as.
    pub open spec fn of(sig: [u8; 4]) -> Signature {
        match Signature::named(sig@) {
            Some(named) => named,
            None => Signature::Other(sig),
        }
    }

    /// The four bytes of this signature.
    pub fn as_ref(&self) -> (sig: [u8; 4])
        ensures
            sig@ == self.bytes(),
    {
        let sig = match *self {
            Signature::IFO => [0x49u8, 0x46u8, 0x4fu8, 0x20u8],
            Signature::ARE => [0x41u8, 0x52u8, 0x45u8, 0x20u8],
            Signature::GIT => [0x47u8, 0x49u8, 0x54u8, 0x20u8],
            Signature::GIC => [0x47u8, 0x49u8, 0x43u8, 0x20u8],
            Signature::UTC => [0x55u8, 0x54u8, 0x43u8, 0x20u8],
            Signature::UTD => [0x55u8, 0x54u8, 0x44u8, 0x20u8],
            Signature::UTE => [0x55u8, 0x54u8, 0x45u8, 0x20u8],
            Signature::UTI => [0x55u8, 0x54u8, 0x49u8, 0x20u8],
            Signature::UTP => [0x55u8, 0x54u8, 0x50u8, 0x20u8],
            Signature::UTS => [0x55u8, 0x54u8, 0x53u8, 0x20u8],
            Signature::UTM => [0x55u8, 0x54u8, 0x4du8, 0x20u8],
            Signature::UTT => [0x55u8, 0x54u8, 0x54u8, 0x20u8],
            Signature::UTW => [0x55u8, 0x54u8, 0x57u8, 0x20u8],
            Signature::DLG => [0x44u8, 0x4cu8, 0x47u8, 0x20u8],
            Signature::JRL => [0x4au8, 0x52u8, 0x4cu8, 0x20u8],
            Signature::FAC => [0x46u8, 0x41u8, 0x43u8, 0x20u8],
            Signature::ITP => [0x49u8, 0x54u8, 0x50u8, 0x20u8],
            Signature::PTM => [0x50u8, 0x54u8, 0x4du8, 0x20u8],
            Signature::PTT => [0x50u8, 0x54u8, 0x54u8, 0x20u8],
            Signature::BIC => [0x42u8, 0x49u8, 0x43u8, 0x20u8],
            Signature::Other(sig) => sig,
        };
        assert(sig@ =~= self.bytes());
        sig
    }

    /// Reads the four bytes of a signature.
    pub fn read(reader: &mut Source) -> (r: Result<Signature>)
        ensures
            match r {
                Ok(sig) => old(reader).ahead(4) == Some(sig.bytes()) && sig.canonical() && old(reader).advanced(final(reader), 4),
                Err(e) => old(reader).short(final(reader), e, 4),
            },
    {
        let sig = reader.read_array4()?;
        proof {
            lemma_bytes_of(sig);
        }
        Ok(Signature::from(sig))
    }

    /// Appends the four bytes of the signature to `writer`.
    pub fn write(&self, writer: &mut Vec<u8>)
        ensures
            final(writer)@ == old(writer)@ + self.bytes(),
    {
        let sig = self.as_ref();
        writer.extend_from_slice(sig.as_slice());
    }
}

impl vstd::std_specs::convert::FromSpecImpl<[u8; 4]> for Signature {
    open spec fn obeys_from_spec() -> bool {
        true
    }

    open spec fn from_spec(sig: [u8; 4]) -> Signature {
        Signature::of(sig)
    }
}

impl From<[u8; 4]> for Signature {
    /// The signature with these bytes: one of the named ones where the bytes
    /// are theirs, `Other` with the bytes unchanged where they are not.
    fn from(sig: [u8; 4]) -> (s: Signature) {
        match (sig[0], sig[1], sig[2], sig[3]) {
            (0x49u8, 0x46u8, 0x4fu8, 0x20u8) => Signature::IFO,
            (0x41u8, 0x52u8, 0x45u8, 0x20u8) => Signature::ARE,
            (0x47u8, 0x49u8, 0x54u8, 0x20u8) => Signature::GIT,
            (0x47u8, 0x49u8, 0x43u8, 0x20u8) => Signature::GIC,
            (0x55u8, 0x54u8, 0x43u8, 0x20u8) => Signature::UTC,
            (0x55u8, 0x54u8, 0x44u8, 0x20u8) => Signature::UTD,
            (0x55u8, 0x54u8, 0x45u8, 0x20u8) => Signature::UTE,
            (0x55u8, 0x54u8, 0x49u8, 0x20u8) => Signature::UTI,
            (0x55u8, 0x54u8, 0x50u8, 0x20u8) => Signature::UTP,
            (0x55u8, 0x54u8, 0x53u8, 0x20u8) => Signature::UTS,
            (0x55u8, 0x54u8, 0x4du8, 0x20u8) => Signature::UTM,
            (0x55u8, 0x54u8, 0x54u8, 0x20u8) => Signature::UTT,
            (0x55u8, 0x54u8, 0x57u8, 0x20u8) => Signature::UTW,
            (0x44u8, 0x4cu8, 0x47u8, 0x20u8) => Signature::DLG,
            (0x4au8, 0x52u8, 0x4cu8, 0x20u8) => Signature::JRL,
            (0x46u8, 0x41u8, 0x43u8, 0x20u8) => Signature::FAC,
            (0x49u8, 0x54u8, 0x50u8, 0x20u8) => Signature::ITP,
            (0x50u8, 0x54u8, 0x4du8, 0x20u8) => Signature::PTM,
            (0x50u8, 0x54u8, 0x54u8, 0x20u8) => Signature::PTT,
            (0x42u8, 0x49u8, 0x43u8, 0x20u8) => Signature::BIC,
            _ => Signature::Other(sig),
        }
    }
}

/// Whatever four bytes a signature is made from, it is written as those
/// bytes again, and it is canonical.
pub proof fn lemma_bytes_of(sig: [u8; 4])
    ensures
        Signature::of(sig).bytes() == sig@,
        Signature::of(sig).canonical(),
{
    assert(Signature::of(sig).bytes() =~= sig@);
}

/// A canonical signature is the one that its own bytes are read as.
pub proof fn lemma_of_bytes(s: Signature, sig: [u8; 4])
    requires
        s.canonical(),
        sig@ == s.bytes(),
    ensures
        Signature::of(sig) == s,
{
    match s {
        Signature::Other(other) => {
            assert(other =~= sig);
        },
        _ => {},
    }
}

/// A signature takes four bytes.
pub proof fn lemma_signature_len(s: Signature)
    ensures
        s.bytes().len() == 4,
{
}

/// A signature with a name of its own is the one that its bytes name.
pub proof fn lemma_named_bytes(s: Signature)
    requires
        !(s is Other),
    ensures
        Signature::named(s.bytes()) == Some(s),
{
}

/// Two canonical signatures that are written as the same bytes are one
/// signature.
pub proof fn lemma_signature_determined(a: Signature, b: Signature)
    requires
        a.canonical(),
        b.canonical(),
        a.bytes() == b.bytes(),
    ensures
        a == b,
{
    if !(a is Other) {
        lemma_named_bytes(a);
    }
    if !(b is Other) {
        lemma_named_bytes(b);
    }
    if a is Other && b is Other {
        assert(a->Other_0 =~= b->Other_0);
    }
}

} // verus!
