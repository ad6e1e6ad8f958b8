//! The header that describes one entry in the central directory.

use vstd::prelude::*;
use vstd::utf8::*;
use crate::datetime::MsdosDateTime;
use crate::error::IoError;
use crate::error::ZipError;
use crate::format::flag_set;
use crate::format::has_flag;
use crate::format::read_bytes;
use crate::format::read_text;
use crate::format::read_u16;
use crate::format::read_u32;
use crate::format::CDH_SIGNATURE;
use crate::format::FLAG_DATA_DESCRIPTOR;
use crate::format::FLAG_ENCRYPTED;
use crate::format::FLAG_MASKED_HEADER;
use crate::format::FLAG_PATCHED_DATA;
use crate::format::FLAG_STRONG_ENCRYPTION;
use crate::format::FLAG_UTF8_NAME;
use crate::format::MAX_FIELD_LENGTH;
use crate::stream::le_u16;
use crate::stream::le_u32;
use crate::stream::lemma_append_assoc;
use crate::stream::lemma_le_u16_of_bytes;
use crate::stream::lemma_le_u32_of_bytes;
use crate::stream::u16_bytes;
use crate::stream::u32_bytes;
use crate::stream::write_bytes;
use crate::stream::write_le_u16;
use crate::stream::write_le_u32;
use crate::stream::ByteReader;

verus! {

/// The number of bytes of a central directory header before its name.
pub const CDH_FIXED_SIZE: usize = 46;

/// A central directory header as it was decoded, or as it is to be encoded.
#[derive(Clone, Debug, PartialEq, Eq)]
pub struct CentralDirectoryHeader {
    pub version_made_by: u16,
    pub version_needed_to_extract: u16,
    pub general_purpose_bit_flag: u16,
    pub compression_method: u16,
    pub last_modified_datetime: MsdosDateTime,
    pub crc32: u32,
    pub compressed_size: u32,
    pub uncompressed_size: u32,
    pub file_name_length: u16,
    pub extra_field_length: u16,
    pub file_comment_length: u16,
    pub disk_number_start: u16,
    pub internal_file_attributes: u16,
    pub external_file_attributes: u32,
    pub relative_offset_of_local_header: u32,
    pub file_name: String,
    pub extra_field: Vec<u8>,
    pub file_comment: String,
}

/// The mathematical value of a central directory header.
pub struct CentralDirectoryHeaderView {
    pub version_made_by: u16,
    pub version_needed_to_extract: u16,
    pub general_purpose_bit_flag: u16,
    pub compression_method: u16,
    pub last_modified_datetime: MsdosDateTime,
    pub crc32: u32,
    pub compressed_size: u32,
    pub uncompressed_size: u32,
    pub file_name_length: u16,
    pub extra_field_length: u16,
    pub file_comment_length: u16,
    pub disk_number_start: u16,
    pub internal_file_attributes: u16,
    pub external_file_attributes: u32,
    pub relative_offset_of_local_header: u32,
    pub file_name: Seq<char>,
    pub extra_field: Seq<u8>,
    pub file_comment: Seq<char>,
}

impl View for CentralDirectoryHeader {
    type V = CentralDirectoryHeaderView;

    open spec fn view(&self) -> CentralDirectoryHeaderView {
        CentralDirectoryHeaderView {
            version_made_by: self.version_made_by,
            version_needed_to_extract: self.version_needed_to_extract,
            general_purpose_bit_flag: self.general_purpose_bit_flag,
            compression_method: self.compression_method,
            last_modified_datetime: self.last_modified_datetime,
            crc32: self.crc32,
            compressed_size: self.compressed_size,
            uncompressed_size: self.uncompressed_size,
            file_name_length: self.file_name_length,
            extra_field_length: self.extra_field_length,
            file_comment_length: self.file_comment_length,
            disk_number_start: self.disk_number_start,
            internal_file_attributes: self.internal_file_attributes,
            external_file_attributes: self.external_file_attributes,
            relative_offset_of_local_header: self.relative_offset_of_local_header,
            file_name: self.file_name@,
            extra_field: self.extra_field@,
            file_comment: self.file_comment@,
        }
    }
}

impl CentralDirectoryHeaderView {
    /// The header with every field zero or empty.
    pub open spec fn empty() -> CentralDirectoryHeaderView {
        CentralDirectoryHeaderView {
            version_made_by: 0,
            version_needed_to_extract: 0,
            general_purpose_bit_flag: 0,
            compression_method: 0,
            last_modified_datetime: MsdosDateTime::from_words(0, 0),
            crc32: 0,
            compressed_size: 0,
            uncompressed_size: 0,
            file_name_length: 0,
            extra_field_length: 0,
            file_comment_length: 0,
            disk_number_start: 0,
            internal_file_attributes: 0,
            external_file_attributes: 0,
            relative_offset_of_local_header: 0,
            file_name: Seq::empty(),
            extra_field: Seq::empty(),
            file_comment: Seq::empty(),
        }
    }

    /// The number of bytes that the header says it takes: the fixed part,
    /// the name, the extra field and the comment.
    pub open spec fn total_size(self) -> int {
        46 + self.file_name_length + self.extra_field_length + self.file_comment_length
    }

    /// Whether name, extra field and comment are short enough to be
    /// written.
    pub open spec fn fits(self) -> bool {
        &&& encode_utf8(self.file_name).len() <= 0xffff
        &&& self.extra_field.len() <= 0xffff
        &&& encode_utf8(self.file_comment).len() <= 0xffff
    }

    /// Whether the header is one that decoding can produce: the three
    /// length fields say how long name, extra field and comment are.
    pub open spec fn wf(self) -> bool {
        &&& encode_utf8(self.file_name).len() == self.file_name_length
        &&& self.extra_field.len() == self.extra_field_length
        &&& encode_utf8(self.file_comment).len() == self.file_comment_length
    }

    /// The 46 bytes before the name.
    pub open spec fn encode_fixed(self) -> Seq<u8> {
        u32_bytes(CDH_SIGNATURE) + u16_bytes(self.version_made_by) + u16_bytes(
            self.version_needed_to_extract,
        ) + u16_bytes(self.general_purpose_bit_flag) + u16_bytes(self.compression_method)
            + self.last_modified_datetime.encode() + u32_bytes(self.crc32) + u32_bytes(
            self.compressed_size,
        ) + u32_bytes(self.uncompressed_size) + u16_bytes(self.file_name_length) + u16_bytes(
            self.extra_field_length,
        ) + u16_bytes(self.file_comment_length) + u16_bytes(self.disk_number_start) + u16_bytes(
            self.internal_file_attributes,
        ) + u32_bytes(self.external_file_attributes) + u32_bytes(
            self.relative_offset_of_local_header,
        )
    }

    /// The bytes of the header: the fixed part, the name in UTF-8, the
    /// extra field, the comment in UTF-8.
    pub open spec fn encode(self) -> Seq<u8> {
        self.encode_fixed() + encode_utf8(self.file_name) + self.extra_field + encode_utf8(
            self.file_comment,
        )
    }

    /// What the bytes of `data` from `pos` on decode to. The checks come in
    /// the order in which the fields are met: the signature, the rest of
    /// the fixed part, the name, the extra field, the comment.
    #[verifier::opaque]
    pub open spec fn decode(data: Seq<u8>, pos: int) -> Result<
        CentralDirectoryHeaderView,
        ZipError,
    > {
        let name_length = le_u16(data, pos + 28);
        let extra_length = le_u16(data, pos + 30);
        let comment_length = le_u16(data, pos + 32);
        let name = data.subrange(pos + 46, pos + 46 + name_length);
        let extra = data.subrange(pos + 46 + name_length, pos + 46 + name_length + extra_length);
        let comment = data.subrange(
            pos + 46 + name_length + extra_length,
            pos + 46 + name_length + extra_length + comment_length,
        );
        if !ByteReader::in_range(data, pos, 4) {
            Err(ZipError::SomeIoError(IoError::EndOfFile))
        } else if le_u32(data, pos) != CDH_SIGNATURE {
            Err(ZipError::InvalidSignature(le_u32(data, pos)))
        } else if !ByteReader::in_range(data, pos, 46 + name_length) {
            Err(ZipError::SomeIoError(IoError::EndOfFile))
        } else if !valid_utf8(name) {
            Err(ZipError::NonUTF8Field)
        } else if !ByteReader::in_range(
            data,
            pos,
            46 + name_length + extra_length + comment_length,
        ) {
            Err(ZipError::SomeIoError(IoError::EndOfFile))
        } else if !valid_utf8(comment) {
            Err(ZipError::NonUTF8Field)
        } else {
            Ok(
                CentralDirectoryHeaderView {
                    version_made_by: le_u16(data, pos + 4),
                    version_needed_to_extract: le_u16(data, pos + 6),
                    general_purpose_bit_flag: le_u16(data, pos + 8),
                    compression_method: le_u16(data, pos + 10),
                    last_modified_datetime: MsdosDateTime::decode(data, pos + 12),
                    crc32: le_u32(data, pos + 16),
                    compressed_size: le_u32(data, pos + 20),
                    uncompressed_size: le_u32(data, pos + 24),
                    file_name_length: name_length,
                    extra_field_length: extra_length,
                    file_comment_length: comment_length,
                    disk_number_start: le_u16(data, pos + 34),
                    internal_file_attributes: le_u16(data, pos + 36),
                    external_file_attributes: le_u32(data, pos + 38),
                    relative_offset_of_local_header: le_u32(data, pos + 42),
                    file_name: decode_utf8(name),
                    extra_field: extra,
                    file_comment: decode_utf8(comment),
                },
            )
        }
    }
}

impl CentralDirectoryHeader {
    /// Whether the entry is encrypted.
    pub fn is_encrypted(&self) -> (b: bool)
        ensures
            b == flag_set(self.general_purpose_bit_flag, FLAG_ENCRYPTED),
    {
        has_flag(self.general_purpose_bit_flag, FLAG_ENCRYPTED)
    }

    /// Whether sizes and CRC-32 follow the payload in a data descriptor.
    pub fn has_data_descriptor(&self) -> (b: bool)
        ensures
            b == flag_set(self.general_purpose_bit_flag, FLAG_DATA_DESCRIPTOR),
    {
        has_flag(self.general_purpose_bit_flag, FLAG_DATA_DESCRIPTOR)
    }

    /// Whether the payload is compressed patched data.
    pub fn is_compressed_patched_data(&self) -> (b: bool)
        ensures
            b == flag_set(self.general_purpose_bit_flag, FLAG_PATCHED_DATA),
    {
        has_flag(self.general_purpose_bit_flag, FLAG_PATCHED_DATA)
    }

    /// Whether the entry uses strong encryption.
    pub fn uses_strong_encryption(&self) -> (b: bool)
        ensures
            b == flag_set(self.general_purpose_bit_flag, FLAG_STRONG_ENCRYPTION),
    {
        has_flag(self.general_purpose_bit_flag, FLAG_STRONG_ENCRYPTION)
    }

    /// Whether name and comment are declared to be UTF-8.
    #[allow(non_snake_case)]
    pub fn has_UTF8_name(&self) -> (b: bool)
        ensures
            b == flag_set(self.general_purpose_bit_flag, FLAG_UTF8_NAME),
    {
        has_flag(self.general_purpose_bit_flag, FLAG_UTF8_NAME)
    }

    /// Whether fields of the local header are masked.
    pub fn uses_masking(&self) -> (b: bool)
        ensures
            b == flag_set(self.general_purpose_bit_flag, FLAG_MASKED_HEADER),
    {
        has_flag(self.general_purpose_bit_flag, FLAG_MASKED_HEADER)
    }

    /// The number of bytes from the signature to the end of the comment,
    /// as the three length fields give it.
    pub fn total_size(&self) -> (n: usize)
        ensures
            n == self@.total_size(),
    {
        CDH_FIXED_SIZE + self.file_name_length as usize + self.extra_field_length as usize
            + self.file_comment_length as usize
    }

    /// A header with every field zero or empty.
    pub fn new() -> (h: CentralDirectoryHeader)
        ensures
            h@ == CentralDirectoryHeaderView::empty(),
    {
        CentralDirectoryHeader {
            version_made_by: 0,
            version_needed_to_extract: 0,
            general_purpose_bit_flag: 0,
            compression_method: 0,
            last_modified_datetime: MsdosDateTime::zero(),
            crc32: 0,
            compressed_size: 0,
            uncompressed_size: 0,
            file_name_length: 0,
            extra_field_length: 0,
            file_comment_length: 0,
            disk_number_start: 0,
            internal_file_attributes: 0,
            external_file_attributes: 0,
            relative_offset_of_local_header: 0,
            file_name: String::new(),
            extra_field: Vec::new(),
            file_comment: String::new(),
        }
    }

    /// Reads the fields one after the other. After a failure `r` stands
    /// where the failure was met.
    fn read_fields(r: &mut ByteReader) -> (res: Result<CentralDirectoryHeader, ZipError>)
        ensures
            final(r).bytes() == old(r).bytes(),
            match res {
                Ok(h) => {
                    &&& CentralDirectoryHeaderView::decode(old(r).bytes(), old(r).offset()) == Ok::<
                        CentralDirectoryHeaderView,
                        ZipError,
                    >(h@)
                    &&& final(r).offset() == old(r).offset() + h@.total_size()
                },
                Err(e) => CentralDirectoryHeaderView::decode(old(r).bytes(), old(r).offset())
                    == Err::<CentralDirectoryHeaderView, ZipError>(e),
            },
    {
        reveal(CentralDirectoryHeaderView::decode);
        let signature: u32 = read_u32(r)?;
        if signature != CDH_SIGNATURE {
            return Err(ZipError::InvalidSignature(signature));
        }
        let version_made_by: u16 = read_u16(r)?;
        let version_needed_to_extract: u16 = read_u16(r)?;
        let general_purpose_bit_flag: u16 = read_u16(r)?;
        let compression_method: u16 = read_u16(r)?;
        let last_modified_datetime = match MsdosDateTime::read(r) {
            Ok(d) => d,
            Err(e) => {
                return Err(ZipError::SomeIoError(e));
            },
        };
        let crc32: u32 = read_u32(r)?;
        let compressed_size: u32 = read_u32(r)?;
        let uncompressed_size: u32 = read_u32(r)?;
        let file_name_length: u16 = read_u16(r)?;
        let extra_field_length: u16 = read_u16(r)?;
        let file_comment_length: u16 = read_u16(r)?;
        let disk_number_start: u16 = read_u16(r)?;
        let internal_file_attributes: u16 = read_u16(r)?;
        let external_file_attributes: u32 = read_u32(r)?;
        let relative_offset_of_local_header: u32 = read_u32(r)?;
        let file_name = read_text(r, file_name_length)?;
        let extra_field = read_bytes(r, extra_field_length)?;
        let file_comment = read_text(r, file_comment_length)?;
        Ok(
            CentralDirectoryHeader {
                version_made_by,
                version_needed_to_extract,
                general_purpose_bit_flag,
                compression_method,
                last_modified_datetime,
                crc32,
                compressed_size,
                uncompressed_size,
                file_name_length,
                extra_field_length,
                file_comment_length,
                disk_number_start,
                internal_file_attributes,
                external_file_attributes,
                relative_offset_of_local_header,
                file_name,
                extra_field,
                file_comment,
            },
        )
    }

    /// Decodes the central directory header that starts at the position of
    /// `r`.
    ///
    /// On success `r` stands behind the header, `total_size()` bytes
    /// further on. On failure `r` stands where it stood before the call.
    pub fn read(r: &mut ByteReader) -> (res: Result<CentralDirectoryHeader, ZipError>)
        ensures
            final(r).bytes() == old(r).bytes(),
            match res {
                Ok(h) => {
                    &&& CentralDirectoryHeaderView::decode(old(r).bytes(), old(r).offset()) == Ok::<
                        CentralDirectoryHeaderView,
                        ZipError,
                    >(h@)
                    &&& final(r).offset() == old(r).offset() + h@.total_size()
                },
                Err(e) => {
                    &&& CentralDirectoryHeaderView::decode(old(r).bytes(), old(r).offset())
                        == Err::<CentralDirectoryHeaderView, ZipError>(e)
                    &&& final(r).offset() == old(r).offset()
                },
            },
    {
        let start: u64 = r.tell();
        let res = Self::read_fields(r);
        if res.is_err() {
            r.seek(start);
        }
        res
    }

    /// Appends the encoded header to `w`, unless the name, the extra field
    /// or the comment is longer than 65535 bytes: then nothing is written.
    ///
    /// The three length fields are written as they stand.
    pub fn write(&self, w: &mut Vec<u8>) -> (res: Result<(), ZipError>)
        ensures
            match res {
                Ok(_) => self@.fits() && final(w)@ == old(w)@ + self@.encode(),
                Err(e) => !self@.fits() && e == ZipError::TooLongField && final(w)@ == old(w)@,
            },
    {
        let name: &[u8] = self.file_name.as_str().as_bytes();
        let comment: &[u8] = self.file_comment.as_str().as_bytes();
        if name.len() > MAX_FIELD_LENGTH || self.extra_field.len() > MAX_FIELD_LENGTH
            || comment.len() > MAX_FIELD_LENGTH {
            return Err(ZipError::TooLongField);
        }
        write_le_u32(w, CDH_SIGNATURE);
        write_le_u16(w, self.version_made_by);
        write_le_u16(w, self.version_needed_to_extract);
        write_le_u16(w, self.general_purpose_bit_flag);
        write_le_u16(w, self.compression_method);
        self.last_modified_datetime.write(w);
        write_le_u32(w, self.crc32);
        write_le_u32(w, self.compressed_size);
        write_le_u32(w, self.uncompressed_size);
        write_le_u16(w, self.file_name_length);
        write_le_u16(w, self.extra_field_length);
        write_le_u16(w, self.file_comment_length);
        write_le_u16(w, self.disk_number_start);
        write_le_u16(w, self.internal_file_attributes);
        write_le_u32(w, self.external_file_attributes);
        write_le_u32(w, self.relative_offset_of_local_header);
        write_bytes(w, name);
        write_bytes(w, self.extra_field.as_slice());
        write_bytes(w, comment);
        proof {
            lemma_written(self@, old(w)@);
        }
        Ok(())
    }
}

/// Writing the parts of a header one after the other behind `base` is
/// writing the encoded header behind `base`.
proof fn lemma_written(h: CentralDirectoryHeaderView, base: Seq<u8>)
    ensures
        base
            + u32_bytes(CDH_SIGNATURE)
            + u16_bytes(h.version_made_by)
            + u16_bytes(h.version_needed_to_extract)
            + u16_bytes(h.general_purpose_bit_flag)
            + u16_bytes(h.compression_method)
            + h.last_modified_datetime.encode()
            + u32_bytes(h.crc32)
            + u32_bytes(h.compressed_size)
            + u32_bytes(h.uncompressed_size)
            + u16_bytes(h.file_name_length)
            + u16_bytes(h.extra_field_length)
            + u16_bytes(h.file_comment_length)
            + u16_bytes(h.disk_number_start)
            + u16_bytes(h.internal_file_attributes)
            + u32_bytes(h.external_file_attributes)
            + u32_bytes(h.relative_offset_of_local_header)
            == base + h.encode_fixed(),
        base
            + h.encode_fixed()
            + encode_utf8(h.file_name)
            + h.extra_field
            + encode_utf8(h.file_comment)
            == base + h.encode(),
{
    let mut so_far = u32_bytes(CDH_SIGNATURE);
    lemma_append_assoc(base, so_far, u16_bytes(h.version_made_by));
    so_far = so_far + u16_bytes(h.version_made_by);
    lemma_append_assoc(base, so_far, u16_bytes(h.version_needed_to_extract));
    so_far = so_far + u16_bytes(h.version_needed_to_extract);
    lemma_append_assoc(base, so_far, u16_bytes(h.general_purpose_bit_flag));
    so_far = so_far + u16_bytes(h.general_purpose_bit_flag);
    lemma_append_assoc(base, so_far, u16_bytes(h.compression_method));
    so_far = so_far + u16_bytes(h.compression_method);
    lemma_append_assoc(base, so_far, h.last_modified_datetime.encode());
    so_far = so_far + h.last_modified_datetime.encode();
    lemma_append_assoc(base, so_far, u32_bytes(h.crc32));
    so_far = so_far + u32_bytes(h.crc32);
    lemma_append_assoc(base, so_far, u32_bytes(h.compressed_size));
    so_far = so_far + u32_bytes(h.compressed_size);
    lemma_append_assoc(base, so_far, u32_bytes(h.uncompressed_size));
    so_far = so_far + u32_bytes(h.uncompressed_size);
    lemma_append_assoc(base, so_far, u16_bytes(h.file_name_length));
    so_far = so_far + u16_bytes(h.file_name_length);
    lemma_append_assoc(base, so_far, u16_bytes(h.extra_field_length));
    so_far = so_far + u16_bytes(h.extra_field_length);
    lemma_append_assoc(base, so_far, u16_bytes(h.file_comment_length));
    so_far = so_far + u16_bytes(h.file_comment_length);
    lemma_append_assoc(base, so_far, u16_bytes(h.disk_number_start));
    so_far = so_far + u16_bytes(h.disk_number_start);
    lemma_append_assoc(base, so_far, u16_bytes(h.internal_file_attributes));
    so_far = so_far + u16_bytes(h.internal_file_attributes);
    lemma_append_assoc(base, so_far, u32_bytes(h.external_file_attributes));
    so_far = so_far + u32_bytes(h.external_file_attributes);
    lemma_append_assoc(base, so_far, u32_bytes(h.relative_offset_of_local_header));
    so_far = so_far + u32_bytes(h.relative_offset_of_local_header);
    assert(so_far == h.encode_fixed());
    lemma_append_assoc(base, so_far, encode_utf8(h.file_name));
    so_far = so_far + encode_utf8(h.file_name);
    lemma_append_assoc(base, so_far, h.extra_field);
    so_far = so_far + h.extra_field;
    lemma_append_assoc(base, so_far, encode_utf8(h.file_comment));
    so_far = so_far + encode_utf8(h.file_comment);
    assert(so_far == h.encode());
}

/// The fixed part is 46 bytes long and holds each field at its offset.
proof fn lemma_fixed_part(h: CentralDirectoryHeaderView)
    ensures
        h.encode_fixed().len() == 46,
        le_u32(h.encode_fixed(), 0) == CDH_SIGNATURE,
        le_u16(h.encode_fixed(), 4) == h.version_made_by,
        le_u16(h.encode_fixed(), 6) == h.version_needed_to_extract,
        le_u16(h.encode_fixed(), 8) == h.general_purpose_bit_flag,
        le_u16(h.encode_fixed(), 10) == h.compression_method,
        MsdosDateTime::decode(h.encode_fixed(), 12) == h.last_modified_datetime,
        le_u32(h.encode_fixed(), 16) == h.crc32,
        le_u32(h.encode_fixed(), 20) == h.compressed_size,
        le_u32(h.encode_fixed(), 24) == h.uncompressed_size,
        le_u16(h.encode_fixed(), 28) == h.file_name_length,
        le_u16(h.encode_fixed(), 30) == h.extra_field_length,
        le_u16(h.encode_fixed(), 32) == h.file_comment_length,
        le_u16(h.encode_fixed(), 34) == h.disk_number_start,
        le_u16(h.encode_fixed(), 36) == h.internal_file_attributes,
        le_u32(h.encode_fixed(), 38) == h.external_file_attributes,
        le_u32(h.encode_fixed(), 42) == h.relative_offset_of_local_header,
{
    let f = h.encode_fixed();
    let d = h.last_modified_datetime;
    assert(f.len() == 46);
    assert(f.subrange(0, 4) =~= u32_bytes(CDH_SIGNATURE));
    assert(f.subrange(4, 6) =~= u16_bytes(h.version_made_by));
    assert(f.subrange(6, 8) =~= u16_bytes(h.version_needed_to_extract));
    assert(f.subrange(8, 10) =~= u16_bytes(h.general_purpose_bit_flag));
    assert(f.subrange(10, 12) =~= u16_bytes(h.compression_method));
    assert(f.subrange(12, 14) =~= u16_bytes(d.time_word()));
    assert(f.subrange(14, 16) =~= u16_bytes(d.date_word()));
    assert(f.subrange(16, 20) =~= u32_bytes(h.crc32));
    assert(f.subrange(20, 24) =~= u32_bytes(h.compressed_size));
    assert(f.subrange(24, 28) =~= u32_bytes(h.uncompressed_size));
    assert(f.subrange(28, 30) =~= u16_bytes(h.file_name_length));
    assert(f.subrange(30, 32) =~= u16_bytes(h.extra_field_length));
    assert(f.subrange(32, 34) =~= u16_bytes(h.file_comment_length));
    assert(f.subrange(34, 36) =~= u16_bytes(h.disk_number_start));
    assert(f.subrange(36, 38) =~= u16_bytes(h.internal_file_attributes));
    assert(f.subrange(38, 42) =~= u32_bytes(h.external_file_attributes));
    assert(f.subrange(42, 46) =~= u32_bytes(h.relative_offset_of_local_header));
    lemma_le_u32_of_bytes(f, 0, CDH_SIGNATURE);
    lemma_le_u16_of_bytes(f, 4, h.version_made_by);
    lemma_le_u16_of_bytes(f, 6, h.version_needed_to_extract);
    lemma_le_u16_of_bytes(f, 8, h.general_purpose_bit_flag);
    lemma_le_u16_of_bytes(f, 10, h.compression_method);
    lemma_le_u16_of_bytes(f, 12, d.time_word());
    lemma_le_u16_of_bytes(f, 14, d.date_word());
    d.lemma_from_own_words();
    lemma_le_u32_of_bytes(f, 16, h.crc32);
    lemma_le_u32_of_bytes(f, 20, h.compressed_size);
    lemma_le_u32_of_bytes(f, 24, h.uncompressed_size);
    lemma_le_u16_of_bytes(f, 28, h.file_name_length);
    lemma_le_u16_of_bytes(f, 30, h.extra_field_length);
    lemma_le_u16_of_bytes(f, 32, h.file_comment_length);
    lemma_le_u16_of_bytes(f, 34, h.disk_number_start);
    lemma_le_u16_of_bytes(f, 36, h.internal_file_attributes);
    lemma_le_u32_of_bytes(f, 38, h.external_file_attributes);
    lemma_le_u32_of_bytes(f, 42, h.relative_offset_of_local_header);
}

/// The integers read at an offset of `data` are those read in a copy of
/// the 46 bytes from `pos` on.
proof fn lemma_fields_of_window(data: Seq<u8>, pos: int, window: Seq<u8>)
    requires
        0 <= pos,
        pos + 46 <= data.len(),
        data.subrange(pos, pos + 46) == window,
    ensures
        forall|i: int| 0 <= i <= 44 ==> le_u16(data, pos + i) == #[trigger] le_u16(window, i),
        forall|i: int| 0 <= i <= 42 ==> le_u32(data, pos + i) == #[trigger] le_u32(window, i),
{
    assert forall|i: int| 0 <= i < 46 implies data[pos + i] == window[i] by {
        assert(window[i] == data.subrange(pos, pos + 46)[i]);
    }
}

/// What decoding gives is well formed and lies within the bytes it was
/// decoded from.
pub proof fn lemma_decoded_central_header(data: Seq<u8>, pos: int)
    requires
        CentralDirectoryHeaderView::decode(data, pos) is Ok,
    ensures
        ({
            let h = CentralDirectoryHeaderView::decode(data, pos)->Ok_0;
            &&& h.wf()
            &&& 0 <= pos
            &&& pos + h.total_size() <= data.len()
            &&& le_u32(data, pos) == CDH_SIGNATURE
        }),
{
    reveal(CentralDirectoryHeaderView::decode);
    let n = le_u16(data, pos + 28);
    let e = le_u16(data, pos + 30);
    let c = le_u16(data, pos + 32);
    decode_utf8_encode_utf8(data.subrange(pos + 46, pos + 46 + n));
    decode_utf8_encode_utf8(data.subrange(pos + 46 + n + e, pos + 46 + n + e + c));
}

/// Where the parts of an encoded header lie when other bytes stand before
/// and after it.
proof fn lemma_parts(h: CentralDirectoryHeaderView, before: Seq<u8>, after: Seq<u8>)
    requires
        h.wf(),
        h.encode_fixed().len() == 46,
    ensures
        ({
            let data = before + h.encode() + after;
            let p = before.len() as int;
            let n = h.file_name_length as int;
            let e = h.extra_field_length as int;
            let c = h.file_comment_length as int;
            &&& h.encode().len() == 46 + n + e + c
            &&& data.len() == p + 46 + n + e + c + after.len()
            &&& data.subrange(p, p + 46) == h.encode_fixed()
            &&& data.subrange(p + 46, p + 46 + n) == encode_utf8(h.file_name)
            &&& data.subrange(p + 46 + n, p + 46 + n + e) == h.extra_field
            &&& data.subrange(p + 46 + n + e, p + 46 + n + e + c) == encode_utf8(h.file_comment)
        }),
{
    let data = before + h.encode() + after;
    let p = before.len() as int;
    let n = h.file_name_length as int;
    let e = h.extra_field_length as int;
    let c = h.file_comment_length as int;
    assert(data.subrange(p, p + 46) =~= h.encode_fixed());
    assert(data.subrange(p + 46, p + 46 + n) =~= encode_utf8(h.file_name));
    assert(data.subrange(p + 46 + n, p + 46 + n + e) =~= h.extra_field);
    assert(data.subrange(p + 46 + n + e, p + 46 + n + e + c) =~= encode_utf8(h.file_comment));
}

/// Decoding undoes encoding: the bytes of a well-formed header, whatever
/// stands before and after them, decode to that header, and the header's
/// total size is the number of bytes it was encoded in.
pub proof fn lemma_central_header_round_trip(
    h: CentralDirectoryHeaderView,
    before: Seq<u8>,
    after: Seq<u8>,
)
    requires
        h.wf(),
    ensures
        h.encode().len() == h.total_size(),
        CentralDirectoryHeaderView::decode(before + h.encode() + after, before.len() as int)
            == Ok::<CentralDirectoryHeaderView, ZipError>(h),
{
    reveal(CentralDirectoryHeaderView::decode);
    let data = before + h.encode() + after;
    let pos = before.len() as int;
    lemma_fixed_part(h);
    lemma_parts(h, before, after);
    lemma_fields_of_window(data, pos, h.encode_fixed());
    encode_utf8_valid_utf8(h.file_name);
    encode_utf8_decode_utf8(h.file_name);
    encode_utf8_valid_utf8(h.file_comment);
    encode_utf8_decode_utf8(h.file_comment);
}

} // verus!
