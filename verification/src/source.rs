//! A seekable byte source held in memory.

use crate::endian::{le_u32, le_u64, read_u32, read_u64};
use crate::error::{eof, Error, IoError, Result};
use vstd::prelude::*;
use vstd::slice::{slice_subrange, slice_to_vec};

verus! {

/// The `n` bytes of `data` that start at offset `at`, if they all exist.
/// No bytes exist at every offset.
pub open spec fn bytes_at(data: Seq<u8>, at: int, n: int) -> Option<Seq<u8>> {
    if 0 <= at && n == 0 {
        Some(Seq::empty())
    } else if 0 <= at && 0 < n && at + n <= data.len() {
        Some(data.subrange(at, at + n))
    } else {
        None
    }
}

/// The byte of `data` at offset `at`.
pub open spec fn u8_at(data: Seq<u8>, at: int) -> Option<u8> {
    match bytes_at(data, at, 1) {
        Some(b) => Some(b[0]),
        None => None,
    }
}

/// The little-endian 32-bit number of `data` at offset `at`.
pub open spec fn u32_at(data: Seq<u8>, at: int) -> Option<u32> {
    match bytes_at(data, at, 4) {
        Some(b) => Some(le_u32(b)),
        None => None,
    }
}

/// The little-endian 64-bit number of `data` at offset `at`.
pub open spec fn u64_at(data: Seq<u8>, at: int) -> Option<u64> {
    match bytes_at(data, at, 8) {
        Some(b) => Some(le_u64(b)),
        None => None,
    }
}

/// The bytes of a file together with a read position.
///
/// The position may lie behind the end of the data; a read there fails.
/// A read that fails leaves the position where it was.
#[derive(Debug, Clone)]
pub struct Source {
    /// The bytes of the file.
    pub data: Vec<u8>,
    /// The offset of the next byte to read.
    pub pos: u64,
}

impl Source {
    /// The `n` bytes at the read position, if that many are left.
    pub open spec fn ahead(&self, n: int) -> Option<Seq<u8>> {
        bytes_at(self.data@, self.pos as int, n)
    }

    /// Whether `next` is `self` after `n` bytes were consumed.
    pub open spec fn advanced(&self, next: &Source, n: int) -> bool {
        next.data == self.data && next.pos == self.pos + n
    }

    /// Whether `next` and `e` are what a read of `n` bytes leaves where fewer
    /// than `n` bytes are left: the source is unchanged.
    pub open spec fn short(&self, next: &Source, e: Error, n: int) -> bool {
        self.ahead(n) is None && e == eof() && *next == *self
    }

    /// A source over `data` that starts reading at its first byte.
    pub fn new(data: Vec<u8>) -> (s: Source)
        ensures
            s.data == data,
            s.pos == 0,
    {
        Source { data, pos: 0 }
    }

    /// Gives the bytes back.
    pub fn into_inner(self) -> (data: Vec<u8>)
        ensures
            data == self.data,
    {
        self.data
    }

    /// The current read position.
    pub fn position(&self) -> (pos: u64)
        ensures
            pos == self.pos,
    {
        self.pos
    }

    /// Moves the read position to `pos`, counted from the start of the data.
    pub fn seek(&mut self, pos: u64)
        ensures
            final(self).data == old(self).data,
            final(self).pos == pos,
    {
        self.pos = pos;
    }

    /// The read position as an index into the data, where `n` bytes are left
    /// to read there and `n` is not 0.
    fn start(&self, n: usize) -> (r: Option<usize>)
        requires
            n > 0,
        ensures
            match r {
                Some(from) => from == self.pos && self.ahead(n as int) is Some && from + n
                    <= usize::MAX,
                None => self.ahead(n as int) is None,
            },
    {
        let len = self.data.len();
        if self.pos > len as u64 {
            return None;
        }
        let from = self.pos as usize;
        if n > len - from {
            None
        } else {
            Some(from)
        }
    }

    /// Whether `n` bytes are left to read.
    pub fn has(&self, n: usize) -> (r: bool)
        ensures
            r == (self.ahead(n as int) is Some),
    {
        n == 0 || self.start(n).is_some()
    }

    /// Reads the next `n` bytes.
    pub fn read_exact(&mut self, n: usize) -> (r: Result<Vec<u8>>)
        ensures
            match r {
                Ok(bytes) => old(self).ahead(n as int) == Some(bytes@) && old(self).advanced(
                    final(self),
                    n as int,
                ),
                Err(e) => old(self).short(final(self), e, n as int),
            },
    {
        if n == 0 {
            return Ok(Vec::new());
        }
        let from = match self.start(n) {
            Some(from) => from,
            None => return Err(Error::Io(IoError::UnexpectedEof)),
        };
        let bytes = slice_to_vec(slice_subrange(self.data.as_slice(), from, from + n));
        self.pos = self.pos + n as u64;
        Ok(bytes)
    }

    /// Reads one byte.
    pub fn read_u8(&mut self) -> (r: Result<u8>)
        ensures
            match r {
                Ok(v) => u8_at(old(self).data@, old(self).pos as int) == Some(v) && old(self).advanced(final(self), 1),
                Err(e) => old(self).short(final(self), e, 1),
            },
    {
        let from = match self.start(1) {
            Some(from) => from,
            None => return Err(Error::Io(IoError::UnexpectedEof)),
        };
        let v = self.data[from];
        self.pos = self.pos + 1;
        Ok(v)
    }

    /// Reads a little-endian 32-bit number.
    pub fn read_u32(&mut self) -> (r: Result<u32>)
        ensures
            match r {
                Ok(v) => u32_at(old(self).data@, old(self).pos as int) == Some(v) && old(self).advanced(final(self), 4),
                Err(e) => old(self).short(final(self), e, 4),
            },
    {
        let from = match self.start(4) {
            Some(from) => from,
            None => return Err(Error::Io(IoError::UnexpectedEof)),
        };
        let v = read_u32(slice_subrange(self.data.as_slice(), from, from + 4));
        self.pos = self.pos + 4;
        Ok(v)
    }

    /// Reads a little-endian 64-bit number.
    pub fn read_u64(&mut self) -> (r: Result<u64>)
        ensures
            match r {
                Ok(v) => u64_at(old(self).data@, old(self).pos as int) == Some(v) && old(self).advanced(final(self), 8),
                Err(e) => old(self).short(final(self), e, 8),
            },
    {
        let from = match self.start(8) {
            Some(from) => from,
            None => return Err(Error::Io(IoError::UnexpectedEof)),
        };
        let v = read_u64(slice_subrange(self.data.as_slice(), from, from + 8));
        self.pos = self.pos + 8;
        Ok(v)
    }

    /// Reads the next four bytes.
    pub fn read_array4(&mut self) -> (r: Result<[u8; 4]>)
        ensures
            match r {
                Ok(a) => old(self).ahead(4) == Some(a@) && old(self).advanced(final(self), 4),
                Err(e) => old(self).short(final(self), e, 4),
            },
    {
        let from = match self.start(4) {
            Some(from) => from,
            None => return Err(Error::Io(IoError::UnexpectedEof)),
        };
        let a = [
            self.data[from],
            self.data[from + 1],
            self.data[from + 2],
            self.data[from + 3],
        ];
        self.pos = self.pos + 4;
        assert(a@ =~= old(self).data@.subrange(from as int, from + 4));
        Ok(a)
    }

    /// Reads the next sixteen bytes.
    pub fn read_array16(&mut self) -> (r: Result<[u8; 16]>)
        ensures
            match r {
                Ok(a) => old(self).ahead(16) == Some(a@) && old(self).advanced(final(self), 16),
                Err(e) => old(self).short(final(self), e, 16),
            },
    {
        let from = match self.start(16) {
            Some(from) => from,
            None => return Err(Error::Io(IoError::UnexpectedEof)),
        };
        let mut a = [0u8; 16];
        let mut i: usize = 0;
        while i < 16
            invariant
                i <= 16,
                from + 16 <= self.data@.len(),
                from + 16 <= usize::MAX,
                forall|j: int| 0 <= j < i ==> a@[j] == self.data@[from + j],
            decreases 16 - i,
        {
            a[i] = self.data[from + i];
            i += 1;
        }
        self.pos = self.pos + 16;
        assert(a@ =~= old(self).data@.subrange(from as int, from + 16));
        Ok(a)
    }
}

} // verus!
