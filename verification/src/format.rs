//! What the three kinds of record have in common: signatures, the bits of
//! the flag word, and the reading of fields from a stream.

use vstd::prelude::*;
use vstd::utf8::*;
use crate::error::IoError;
use crate::error::ZipError;
use crate::stream::ByteReader;
use crate::stream::le_u16;
use crate::stream::le_u32;

pub use crate::central_header::CentralDirectoryHeader;
pub use crate::datetime::MsdosDateTime;
pub use crate::end_record::EndOfCentralDirectoryRecord;
pub use crate::local_header::LocalFileHeader;

verus! {

/// The signature that starts a local file header.
pub const LFH_SIGNATURE: u32 = 0x04034b50;

/// The signature that may start a data descriptor.
pub const DD_SIGNATURE: u32 = 0x08074b50;

/// The signature that starts a central directory header.
pub const CDH_SIGNATURE: u32 = 0x02014b50;

/// The signature that starts the digital signature of the central directory.
pub const CDDS_SIGNATURE: u32 = 0x05054b50;

/// The signature that starts the end-of-central-directory record.
pub const EOCDR_SIGNATURE: u32 = 0x06054b50;

/// Flag bit: the entry is encrypted.
pub const FLAG_ENCRYPTED: u16 = 1;

/// Flag bit: sizes and CRC follow the payload in a data descriptor.
pub const FLAG_DATA_DESCRIPTOR: u16 = 8;

/// Flag bit: the payload is compressed patched data.
pub const FLAG_PATCHED_DATA: u16 = 32;

/// Flag bit: the entry uses strong encryption.
pub const FLAG_STRONG_ENCRYPTION: u16 = 64;

/// Flag bit: name and comment are UTF-8.
pub const FLAG_UTF8_NAME: u16 = 2048;

/// Flag bit: fields of the local header are masked.
pub const FLAG_MASKED_HEADER: u16 = 8192;

/// The longest name, comment or extra field that a 16-bit length can say.
pub const MAX_FIELD_LENGTH: usize = 0xffff;

/// Whether `flags` has the bit `bit` set.
pub open spec fn flag_set(flags: u16, bit: u16) -> bool {
    flags & bit != 0
}

/// Whether `flags` asks for something this reader does not handle:
/// encryption, a data descriptor, patched data, strong encryption or a
/// masked local header.
pub open spec fn unsupported_flags(flags: u16) -> bool {
    ||| flag_set(flags, FLAG_ENCRYPTED)
    ||| flag_set(flags, FLAG_DATA_DESCRIPTOR)
    ||| flag_set(flags, FLAG_PATCHED_DATA)
    ||| flag_set(flags, FLAG_STRONG_ENCRYPTION)
    ||| flag_set(flags, FLAG_MASKED_HEADER)
}

/// Tests one bit of a flag word.
pub fn has_flag(flags: u16, bit: u16) -> (b: bool)
    ensures
        b == flag_set(flags, bit),
{
    (flags & bit) != 0
}

/// The optional record that follows the payload of an entry written without
/// knowing its size in advance.
#[derive(Clone, Copy, Debug, PartialEq, Eq)]
pub struct DataDescriptor {
    pub signature_present: bool,
    pub crc32: u32,
    pub compressed_size: u32,
    pub uncompressed_size: u32,
}

/// The optional digital signature that follows the central directory.
#[derive(Clone, Debug, PartialEq, Eq)]
pub struct CentralDirectoryDigitalSignature {
    pub data_size: u16,
    pub data: Vec<u8>,
}

/// Wraps `String::from_utf8` of std. The contract claims what its
/// documentation says: it succeeds exactly on valid UTF-8, and the string it
/// returns holds the bytes it was given.
#[verifier::external_body]
fn string_from_utf8(bytes: Vec<u8>) -> (res: Option<String>)
    ensures
        match res {
            Some(s) => valid_utf8(bytes@) && encode_utf8(s@) == bytes@,
            None => !valid_utf8(bytes@),
        },
{
    String::from_utf8(bytes).ok()
}

/// Reads a 16-bit field.
pub(crate) fn read_u16(r: &mut ByteReader) -> (res: Result<u16, ZipError>)
    ensures
        final(r).bytes() == old(r).bytes(),
        match res {
            Ok(v) => {
                &&& ByteReader::in_range(old(r).bytes(), old(r).offset(), 2)
                &&& v == le_u16(old(r).bytes(), old(r).offset())
                &&& final(r).offset() == old(r).offset() + 2
            },
            Err(e) => {
                &&& !ByteReader::in_range(old(r).bytes(), old(r).offset(), 2)
                &&& e == ZipError::SomeIoError(IoError::EndOfFile)
                &&& final(r).offset() == old(r).offset()
            },
        },
{
    match r.read_le_u16() {
        Ok(v) => Ok(v),
        Err(e) => Err(ZipError::SomeIoError(e)),
    }
}

/// Reads a 32-bit field.
pub(crate) fn read_u32(r: &mut ByteReader) -> (res: Result<u32, ZipError>)
    ensures
        final(r).bytes() == old(r).bytes(),
        match res {
            Ok(v) => {
                &&& ByteReader::in_range(old(r).bytes(), old(r).offset(), 4)
                &&& v == le_u32(old(r).bytes(), old(r).offset())
                &&& final(r).offset() == old(r).offset() + 4
            },
            Err(e) => {
                &&& !ByteReader::in_range(old(r).bytes(), old(r).offset(), 4)
                &&& e == ZipError::SomeIoError(IoError::EndOfFile)
                &&& final(r).offset() == old(r).offset()
            },
        },
{
    match r.read_le_u32() {
        Ok(v) => Ok(v),
        Err(e) => Err(ZipError::SomeIoError(e)),
    }
}

/// Reads a field of `n` opaque bytes.
pub(crate) fn read_bytes(r: &mut ByteReader, n: u16) -> (res: Result<Vec<u8>, ZipError>)
    ensures
        final(r).bytes() == old(r).bytes(),
        match res {
            Ok(v) => {
                &&& ByteReader::in_range(old(r).bytes(), old(r).offset(), n as int)
                &&& v@ == old(r).bytes().subrange(old(r).offset(), old(r).offset() + n)
                &&& final(r).offset() == old(r).offset() + n
            },
            Err(e) => {
                &&& !ByteReader::in_range(old(r).bytes(), old(r).offset(), n as int)
                &&& e == ZipError::SomeIoError(IoError::EndOfFile)
                &&& final(r).offset() == old(r).offset()
            },
        },
{
    match r.read_exact(n as usize) {
        Ok(v) => Ok(v),
        Err(e) => Err(ZipError::SomeIoError(e)),
    }
}

/// Reads a field of `n` bytes that must be UTF-8 text. The bytes are
/// consumed also where they are not.
pub(crate) fn read_text(r: &mut ByteReader, n: u16) -> (res: Result<String, ZipError>)
    ensures
        final(r).bytes() == old(r).bytes(),
        match res {
            Ok(s) => {
                &&& ByteReader::in_range(old(r).bytes(), old(r).offset(), n as int)
                &&& valid_utf8(old(r).bytes().subrange(old(r).offset(), old(r).offset() + n))
                &&& s@ == decode_utf8(
                    old(r).bytes().subrange(old(r).offset(), old(r).offset() + n),
                )
                &&& final(r).offset() == old(r).offset() + n
            },
            Err(e) => if ByteReader::in_range(old(r).bytes(), old(r).offset(), n as int) {
                &&& !valid_utf8(old(r).bytes().subrange(old(r).offset(), old(r).offset() + n))
                &&& e == ZipError::NonUTF8Field
            } else {
                e == ZipError::SomeIoError(IoError::EndOfFile)
            },
        },
{
    let bytes: Vec<u8> = read_bytes(r, n)?;
    match string_from_utf8(bytes) {
        Some(s) => {
            proof {
                encode_utf8_decode_utf8(s@);
            }
            Ok(s)
        },
        None => Err(ZipError::NonUTF8Field),
    }
}

} // verus!
