//! An in-memory, seekable byte source: the bytes of a container and a read
//! position that the operations on it move.

use crate::region_file::error::RegionError;
use byteorder::{BigEndian, ByteOrder};
use vstd::prelude::*;
use vstd::slice::slice_subrange;

verus! {

/// The value of the four bytes of `data` that start at `at`, most significant
/// byte first.
pub open spec fn be_u32_at(data: Seq<u8>, at: int) -> u32
    recommends
        0 <= at,
        at + 4 <= data.len(),
{
    (data[at] * 0x100_0000 + data[at + 1] * 0x1_0000 + data[at + 2] * 0x100 + data[at + 3]) as u32
}

/// What a source is to its callers: its bytes and its read position.
pub struct SourceView {
    pub bytes: Seq<u8>,
    pub position: nat,
}

impl SourceView {
    /// Whether `count` bytes can be read at the position: the source holds
    /// that many from there on.
    pub open spec fn has(self, count: nat) -> bool {
        self.position + count <= self.bytes.len()
    }

    /// The same bytes with the position at `to`.
    pub open spec fn at(self, to: nat) -> SourceView {
        SourceView { bytes: self.bytes, position: to }
    }

    /// The bytes from the position to the end; none when the position is
    /// at or past the end.
    pub open spec fn remaining(self) -> Seq<u8> {
        if self.position <= self.bytes.len() {
            self.bytes.subrange(self.position as int, self.bytes.len() as int)
        } else {
            Seq::empty()
        }
    }
}

/// A container held in memory, with a read position. The position may lie
/// past the end: reading there fails, seeking there does not.
pub struct ByteSource {
    data: Vec<u8>,
    pos: u64,
}

impl View for ByteSource {
    type V = SourceView;

    closed spec fn view(&self) -> SourceView {
        SourceView { bytes: self.data@, position: self.pos as nat }
    }
}

/// `byteorder::BigEndian::read_u32`: the first four bytes of `buf` as an
/// integer, most significant byte first. It panics on fewer than four bytes.
#[verifier::external_body]
pub(crate) fn be_u32(buf: &[u8]) -> (r: u32)
    requires
        buf@.len() >= 4,
    ensures
        r == be_u32_at(buf@, 0),
{
    BigEndian::read_u32(buf)
}

/// `byteorder::BigEndian::read_u32_into`: each item of `dst` becomes the
/// integer that the four bytes of `src` at four times its index spell, most
/// significant byte first. It panics unless `src` is four times as long as `dst`.
#[verifier::external_body]
fn be_u32_into(src: &[u8], dst: &mut Vec<u32>)
    requires
        src@.len() == 4 * old(dst)@.len(),
    ensures
        final(dst)@.len() == old(dst)@.len(),
        forall|i: int| 0 <= i < final(dst)@.len() ==> final(dst)@[i] == be_u32_at(src@, 4 * i),
{
    BigEndian::read_u32_into(src, dst.as_mut_slice())
}

impl ByteSource {
    /// A source over `data`, positioned at its start.
    pub fn new(data: Vec<u8>) -> (s: ByteSource)
        ensures
            s@.bytes == data@,
            s@.position == 0,
    {
        ByteSource { data, pos: 0 }
    }

    /// Number of bytes in the source.
    pub fn len(&self) -> (n: usize)
        ensures
            n == self@.bytes.len(),
    {
        self.data.len()
    }

    /// The read position, in bytes from the start.
    pub fn stream_position(&self) -> (p: u64)
        ensures
            p == self@.position,
    {
        self.pos
    }

    /// Moves the read position to `to` bytes from the start.
    pub fn seek(&mut self, to: u64)
        ensures
            final(self)@ == old(self)@.at(to as nat),
    {
        self.pos = to;
    }

    /// The bytes from the read position to the end. The position stays.
    pub fn remaining(&self) -> (r: &[u8])
        ensures
            r@ == self@.remaining(),
    {
        let len: usize = self.data.len();
        if self.pos <= len as u64 {
            slice_subrange(self.data.as_slice(), self.pos as usize, len)
        } else {
            slice_subrange(self.data.as_slice(), len, len)
        }
    }

    /// Reads one byte and steps over it. Where the source does not hold one
    /// at the position, the call fails and leaves the source as it was.
    pub fn read_u8(&mut self) -> (r: Result<u8, RegionError>)
        ensures
            old(self)@.has(1) ==> r == Ok::<u8, RegionError>(
                old(self)@.bytes[old(self)@.position as int],
            ) && final(self)@ == old(self)@.at(old(self)@.position + 1),
            !old(self)@.has(1) ==> r == Err::<u8, RegionError>(RegionError::Io) && final(self)@
                == old(self)@,
    {
        let len: u64 = self.data.len() as u64;
        if self.pos >= len {
            return Err(RegionError::Io);
        }
        let byte: u8 = self.data[self.pos as usize];
        self.pos = self.pos + 1;
        Ok(byte)
    }

    /// Reads four bytes as a big-endian integer and steps over them. Where
    /// the source does not hold four at the position, the call fails and
    /// leaves the source as it was.
    pub fn read_u32(&mut self) -> (r: Result<u32, RegionError>)
        ensures
            old(self)@.has(4) ==> r == Ok::<u32, RegionError>(
                be_u32_at(old(self)@.bytes, old(self)@.position as int),
            ) && final(self)@ == old(self)@.at(old(self)@.position + 4),
            !old(self)@.has(4) ==> r == Err::<u32, RegionError>(RegionError::Io) && final(self)@
                == old(self)@,
    {
        let len: u64 = self.data.len() as u64;
        if self.pos > len || len - self.pos < 4 {
            return Err(RegionError::Io);
        }
        let at: usize = self.pos as usize;
        let word: u32 = be_u32(slice_subrange(self.data.as_slice(), at, at + 4));
        self.pos = self.pos + 4;
        Ok(word)
    }

    /// Fills `dst` with big-endian integers read from the source, four bytes
    /// each, and steps over them. Where the source does not hold that many
    /// bytes at the position, the call fails and leaves both the source and
    /// `dst` as they were.
    pub fn read_u32_into(&mut self, dst: &mut Vec<u32>) -> (r: Result<(), RegionError>)
        ensures
            old(self)@.has(4 * old(dst)@.len()) ==> r is Ok && final(self)@ == old(self)@.at(
                old(self)@.position + 4 * old(dst)@.len(),
            ) && final(dst)@.len() == old(dst)@.len() && forall|i: int|
                0 <= i < old(dst)@.len() ==> final(dst)@[i] == be_u32_at(
                    old(self)@.bytes,
                    old(self)@.position + 4 * i,
                ),
            !old(self)@.has(4 * old(dst)@.len()) ==> r == Err::<(), RegionError>(RegionError::Io)
                && final(self)@ == old(self)@ && final(dst)@ == old(dst)@,
    {
        let len: u64 = self.data.len() as u64;
        let count: u64 = dst.len() as u64;
        if self.pos > len || (len - self.pos) / 4 < count {
            return Err(RegionError::Io);
        }
        let at: usize = self.pos as usize;
        let size: usize = 4 * dst.len();
        be_u32_into(slice_subrange(self.data.as_slice(), at, at + size), dst);
        self.pos = self.pos + 4 * count;
        Ok(())
    }
}

} // verus!
