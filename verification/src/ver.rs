//! The version of the GFF format that a file is written in: the second four
//! bytes of the file.

use crate::error::Result;
use crate::source::Source;
use vstd::prelude::*;

verus! {

/// The code of the character `0`.
pub const DIGIT_ZERO: u8 = 0x30;

/// The version of the file format, as the four bytes `V<major>.<minor>`.
#[derive(Debug, Clone, Copy, PartialEq, Eq, Hash)]
pub struct Version(pub [u8; 4]);

impl Version {
    /// The four bytes of the version.
    pub open spec fn bytes(self) -> Seq<u8> {
        self.0@
    }

    /// The current version of the format, `V3.2`.
    pub open spec fn current() -> Version {
        choose|v: Version| v.bytes() == seq![0x56u8, 0x33u8, 0x2eu8, 0x32u8]
    }

    /// The current version of the format, `V3.2`. A header made without a
    /// version has this one.
    pub fn v3_2() -> (v: Version)
        ensures
            v == Version::current(),
            v.bytes() == seq![0x56u8, 0x33u8, 0x2eu8, 0x32u8],
    {
        let v = Version([0x56u8, 0x33u8, 0x2eu8, 0x32u8]);
        assert(v.bytes() =~= seq![0x56u8, 0x33u8, 0x2eu8, 0x32u8]);
        assert(v.0 =~= Version::current().0);
        v
    }

    /// The version with the major and minor numbers given, each written as
    /// one character counted up from `0`.
    pub fn new(major: u8, minor: u8) -> (v: Version)
        requires
            major + DIGIT_ZERO <= u8::MAX,
            minor + DIGIT_ZERO <= u8::MAX,
        ensures
            v.bytes() == seq![
                0x56u8,
                (major + DIGIT_ZERO) as u8,
                0x2eu8,
                (minor + DIGIT_ZERO) as u8,
            ],
    {
        let v = Version([0x56u8, major + DIGIT_ZERO, 0x2eu8, minor + DIGIT_ZERO]);
        assert(v.bytes() =~= seq![
            0x56u8,
            (major + DIGIT_ZERO) as u8,
            0x2eu8,
            (minor + DIGIT_ZERO) as u8,
        ]);
        v
    }

    /// The major number of the version, taken from its second byte.
    pub fn major(&self) -> (n: u8)
        requires
            self.bytes()[1] >= DIGIT_ZERO,
        ensures
            n == self.bytes()[1] - DIGIT_ZERO,
    {
        self.0[1] - DIGIT_ZERO
    }

    /// The minor number of the version, taken from its fourth byte.
    pub fn minor(&self) -> (n: u8)
        requires
            self.bytes()[3] >= DIGIT_ZERO,
        ensures
            n == self.bytes()[3] - DIGIT_ZERO,
    {
        self.0[3] - DIGIT_ZERO
    }

    /// Reads the four bytes of a version.
    pub fn read(reader: &mut Source) -> (r: Result<Version>)
        ensures
            match r {
                Ok(v) => old(reader).ahead(4) == Some(v.bytes()) && old(reader).advanced(
                    final(reader),
                    4,
                ),
                Err(e) => old(reader).short(final(reader), e, 4),
            },
    {
        let version = reader.read_array4()?;
        Ok(Version(version))
    }

    /// Appends the four bytes of the version to `writer`.
    pub fn write(&self, writer: &mut Vec<u8>)
        ensures
            final(writer)@ == old(writer)@ + self.bytes(),
    {
        writer.extend_from_slice(self.0.as_slice());
    }
}

/// The numbers that a version is made of are the numbers that it gives back.
pub proof fn lemma_version_numbers(v: Version, major: u8, minor: u8)
    requires
        major + DIGIT_ZERO <= u8::MAX,
        minor + DIGIT_ZERO <= u8::MAX,
        v.bytes() == seq![0x56u8, (major + DIGIT_ZERO) as u8, 0x2eu8, (minor + DIGIT_ZERO) as u8],
    ensures
        v.bytes()[1] - DIGIT_ZERO == major,
        v.bytes()[3] - DIGIT_ZERO == minor,
{
}

} // verus!
