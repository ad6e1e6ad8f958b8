//! Little-endian integers and an in-memory, seekable byte stream.

use vstd::prelude::*;
use vstd::slice::slice_to_vec;
use crate::error::IoError;

verus! {

/// The 16-bit little-endian integer that starts at index `at` of `s`.
pub open spec fn le_u16(s: Seq<u8>, at: int) -> u16 {
    (s[at] as int + 256 * (s[at + 1] as int)) as u16
}

/// The 32-bit little-endian integer that starts at index `at` of `s`.
pub open spec fn le_u32(s: Seq<u8>, at: int) -> u32 {
    (s[at] as int + 256 * (s[at + 1] as int) + 65536 * (s[at + 2] as int) + 16777216 * (
    s[at + 3] as int)) as u32
}

/// The two bytes that encode `v`, low byte first.
pub open spec fn u16_bytes(v: u16) -> Seq<u8> {
    seq![(v % 256) as u8, (v / 256) as u8]
}

/// The four bytes that encode `v`, low byte first.
pub open spec fn u32_bytes(v: u32) -> Seq<u8> {
    seq![(v % 256) as u8, (v / 256 % 256) as u8, (v / 65536 % 256) as u8, (v / 16777216) as u8]
}

/// Decoding undoes encoding, wherever the encoded bytes sit in a sequence.
pub proof fn lemma_le_u16_of_bytes(s: Seq<u8>, at: int, v: u16)
    requires
        0 <= at,
        at + 2 <= s.len(),
        s.subrange(at, at + 2) == u16_bytes(v),
    ensures
        le_u16(s, at) == v,
{
    assert(s[at] == s.subrange(at, at + 2)[0]);
    assert(s[at + 1] == s.subrange(at, at + 2)[1]);
}

/// Decoding undoes encoding, wherever the encoded bytes sit in a sequence.
pub proof fn lemma_le_u32_of_bytes(s: Seq<u8>, at: int, v: u32)
    requires
        0 <= at,
        at + 4 <= s.len(),
        s.subrange(at, at + 4) == u32_bytes(v),
    ensures
        le_u32(s, at) == v,
{
    assert(s[at] == s.subrange(at, at + 4)[0]);
    assert(s[at + 1] == s.subrange(at, at + 4)[1]);
    assert(s[at + 2] == s.subrange(at, at + 4)[2]);
    assert(s[at + 3] == s.subrange(at, at + 4)[3]);
    assert(v == (v % 256) + 256 * (v / 256 % 256) + 65536 * (v / 65536 % 256) + 16777216 * (v
        / 16777216)) by (bit_vector);
}

/// Appending `c` to `a + b` is appending `b + c` to `a`.
pub proof fn lemma_append_assoc(a: Seq<u8>, b: Seq<u8>, c: Seq<u8>)
    ensures
        (a + b) + c == a + (b + c),
{
    assert((a + b) + c =~= a + (b + c));
}

/// What stands between `a` and `c` in `a + b + c` is `b`.
pub proof fn lemma_middle(a: Seq<u8>, b: Seq<u8>, c: Seq<u8>)
    ensures
        (a + b + c).len() == a.len() + b.len() + c.len(),
        (a + b + c).subrange(a.len() as int, (a.len() + b.len()) as int) == b,
{
    assert((a + b + c).subrange(a.len() as int, (a.len() + b.len()) as int) =~= b);
}

/// Reads the 16-bit little-endian integer at `at`.
pub fn get_le_u16(data: &[u8], at: usize) -> (v: u16)
    requires
        at + 2 <= data@.len(),
    ensures
        v == le_u16(data@, at as int),
{
    let lo: u16 = data[at] as u16;
    let hi: u16 = data[at + 1] as u16;
    lo + 256 * hi
}

/// Reads the 32-bit little-endian integer at `at`.
pub fn get_le_u32(data: &[u8], at: usize) -> (v: u32)
    requires
        at + 4 <= data@.len(),
    ensures
        v == le_u32(data@, at as int),
{
    let b0: u32 = data[at] as u32;
    let b1: u32 = data[at + 1] as u32;
    let b2: u32 = data[at + 2] as u32;
    let b3: u32 = data[at + 3] as u32;
    b0 + 256 * b1 + 65536 * b2 + 16777216 * b3
}

/// Appends the two bytes of `v`, low byte first.
pub fn write_le_u16(w: &mut Vec<u8>, v: u16)
    ensures
        final(w)@ == old(w)@ + u16_bytes(v),
{
    w.push((v % 256) as u8);
    w.push((v / 256) as u8);
}

/// Appends the four bytes of `v`, low byte first.
pub fn write_le_u32(w: &mut Vec<u8>, v: u32)
    ensures
        final(w)@ == old(w)@ + u32_bytes(v),
{
    w.push((v % 256) as u8);
    w.push((v / 256 % 256) as u8);
    w.push((v / 65536 % 256) as u8);
    w.push((v / 16777216) as u8);
}

/// Appends a copy of `bytes`.
pub fn write_bytes(w: &mut Vec<u8>, bytes: &[u8])
    ensures
        final(w)@ == old(w)@ + bytes@,
{
    w.extend_from_slice(bytes);
}

/// A byte sequence with a read position, standing in for a seekable file.
///
/// The position may lie beyond the last byte; a read from there reports
/// the end of the file.
pub struct ByteReader {
    data: Vec<u8>,
    pos: u64,
}

impl ByteReader {
    /// The bytes of the stream.
    pub closed spec fn bytes(&self) -> Seq<u8> {
        self.data@
    }

    /// The offset of the next byte to be read.
    pub closed spec fn offset(&self) -> int {
        self.pos as int
    }

    /// Whether `n` bytes can be read at offset `at` of `s`.
    pub open spec fn in_range(s: Seq<u8>, at: int, n: int) -> bool {
        0 <= at && 0 <= n && at + n <= s.len()
    }

    /// A stream over `data`, positioned at its first byte.
    pub fn new(data: Vec<u8>) -> (r: ByteReader)
        ensures
            r.bytes() == data@,
            r.offset() == 0,
    {
        ByteReader { data, pos: 0 }
    }

    /// The number of bytes in the stream.
    pub fn len(&self) -> (n: u64)
        ensures
            n == self.bytes().len(),
    {
        self.data.len() as u64
    }

    /// The whole stream as a slice.
    pub fn as_slice(&self) -> (s: &[u8])
        ensures
            s@ == self.bytes(),
    {
        self.data.as_slice()
    }

    /// Moves the read position to `pos`, counted from the first byte.
    pub fn seek(&mut self, pos: u64)
        ensures
            final(self).bytes() == old(self).bytes(),
            final(self).offset() == pos,
    {
        self.pos = pos;
    }

    /// The current read position.
    pub fn tell(&self) -> (pos: u64)
        ensures
            pos == self.offset(),
    {
        self.pos
    }

    /// Reads a 16-bit little-endian integer and moves past it.
    pub fn read_le_u16(&mut self) -> (res: Result<u16, IoError>)
        ensures
            final(self).bytes() == old(self).bytes(),
            match res {
                Ok(v) => {
                    &&& Self::in_range(old(self).bytes(), old(self).offset(), 2)
                    &&& v == le_u16(old(self).bytes(), old(self).offset())
                    &&& final(self).offset() == old(self).offset() + 2
                },
                Err(e) => {
                    &&& !Self::in_range(old(self).bytes(), old(self).offset(), 2)
                    &&& e == IoError::EndOfFile
                    &&& final(self).offset() == old(self).offset()
                },
            },
    {
        let len: u64 = self.data.len() as u64;
        if len < 2 || self.pos > len - 2 {
            return Err(IoError::EndOfFile);
        }
        let v: u16 = get_le_u16(self.data.as_slice(), self.pos as usize);
        self.pos = self.pos + 2;
        Ok(v)
    }

    /// Reads a 32-bit little-endian integer and moves past it.
    pub fn read_le_u32(&mut self) -> (res: Result<u32, IoError>)
        ensures
            final(self).bytes() == old(self).bytes(),
            match res {
                Ok(v) => {
                    &&& Self::in_range(old(self).bytes(), old(self).offset(), 4)
                    &&& v == le_u32(old(self).bytes(), old(self).offset())
                    &&& final(self).offset() == old(self).offset() + 4
                },
                Err(e) => {
                    &&& !Self::in_range(old(self).bytes(), old(self).offset(), 4)
                    &&& e == IoError::EndOfFile
                    &&& final(self).offset() == old(self).offset()
                },
            },
    {
        let len: u64 = self.data.len() as u64;
        if len < 4 || self.pos > len - 4 {
            return Err(IoError::EndOfFile);
        }
        let v: u32 = get_le_u32(self.data.as_slice(), self.pos as usize);
        self.pos = self.pos + 4;
        Ok(v)
    }

    /// Reads exactly `n` bytes and moves past them.
    pub fn read_exact(&mut self, n: usize) -> (res: Result<Vec<u8>, IoError>)
        ensures
            final(self).bytes() == old(self).bytes(),
            match res {
                Ok(v) => {
                    &&& Self::in_range(old(self).bytes(), old(self).offset(), n as int)
                    &&& v@ == old(self).bytes().subrange(
                        old(self).offset(),
                        old(self).offset() + n,
                    )
                    &&& final(self).offset() == old(self).offset() + n
                },
                Err(e) => {
                    &&& !Self::in_range(old(self).bytes(), old(self).offset(), n as int)
                    &&& e == IoError::EndOfFile
                    &&& final(self).offset() == old(self).offset()
                },
            },
    {
        let len: usize = self.data.len();
        if n > len || self.pos > (len - n) as u64 {
            return Err(IoError::EndOfFile);
        }
        let start: usize = self.pos as usize;
        let out: Vec<u8> = slice_to_vec(&self.data.as_slice()[start..start + n]);
        self.pos = self.pos + n as u64;
        Ok(out)
    }
}

} // verus!
