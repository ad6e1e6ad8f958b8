//! The record at the end of an archive that says where its central
//! directory is.

use vstd::prelude::*;
use vstd::utf8::*;
use crate::error::IoError;
use crate::error::ZipError;
use crate::format::read_text;
use crate::format::read_u16;
use crate::format::read_u32;
use crate::format::EOCDR_SIGNATURE;
use crate::format::MAX_FIELD_LENGTH;
use crate::stream::le_u16;
use crate::stream::le_u32;
use crate::stream::lemma_append_assoc;
use crate::stream::lemma_le_u16_of_bytes;
use crate::stream::lemma_le_u32_of_bytes;
use crate::stream::u16_bytes;
use crate::stream::u32_bytes;
use crate::stream::write_bytes;
use crate::stream::write_le_u16;
use crate::stream::write_le_u32;
use crate::stream::ByteReader;

verus! {

/// An end-of-central-directory record as it was decoded, or as it is to be
/// encoded.
#[derive(Clone, Debug, PartialEq, Eq)]
pub struct EndOfCentralDirectoryRecord {
    pub disk_number: u16,
    pub disk_number_with_start_of_central_directory: u16,
    pub entry_count_this_disk: u16,
    pub total_entry_count: u16,
    pub central_directory_size: u32,
    pub central_directory_offset: u32,
    pub comment_length: u16,
    pub comment: String,
}

/// The mathematical value of an end-of-central-directory record.
pub struct EndOfCentralDirectoryRecordView {
    pub disk_number: u16,
    pub disk_number_with_start_of_central_directory: u16,
    pub entry_count_this_disk: u16,
    pub total_entry_count: u16,
    pub central_directory_size: u32,
    pub central_directory_offset: u32,
    pub comment_length: u16,
    pub comment: Seq<char>,
}

impl View for EndOfCentralDirectoryRecord {
    type V = EndOfCentralDirectoryRecordView;

    open spec fn view(&self) -> EndOfCentralDirectoryRecordView {
        EndOfCentralDirectoryRecordView {
            disk_number: self.disk_number,
            disk_number_with_start_of_central_directory:
                self.disk_number_with_start_of_central_directory,
            entry_count_this_disk: self.entry_count_this_disk,
            total_entry_count: self.total_entry_count,
            central_directory_size: self.central_directory_size,
            central_directory_offset: self.central_directory_offset,
            comment_length: self.comment_length,
            comment: self.comment@,
        }
    }
}

impl EndOfCentralDirectoryRecordView {
    /// The record with every field zero or empty.
    pub open spec fn empty() -> EndOfCentralDirectoryRecordView {
        EndOfCentralDirectoryRecordView {
            disk_number: 0,
            disk_number_with_start_of_central_directory: 0,
            entry_count_this_disk: 0,
            total_entry_count: 0,
            central_directory_size: 0,
            central_directory_offset: 0,
            comment_length: 0,
            comment: Seq::empty(),
        }
    }

    /// The number of bytes that the record says it takes: the fixed part
    /// and the comment.
    pub open spec fn total_size(self) -> int {
        22 + self.comment_length
    }

    /// Whether the comment is short enough to be written.
    pub open spec fn fits(self) -> bool {
        encode_utf8(self.comment).len() <= 0xffff
    }

    /// Whether the record is one that decoding can produce: the length
    /// field says how long the comment is.
    pub open spec fn wf(self) -> bool {
        encode_utf8(self.comment).len() == self.comment_length
    }

    /// The 22 bytes before the comment.
    pub open spec fn encode_fixed(self) -> Seq<u8> {
        u32_bytes(EOCDR_SIGNATURE) + u16_bytes(self.disk_number) + u16_bytes(
            self.disk_number_with_start_of_central_directory,
        ) + u16_bytes(self.entry_count_this_disk) + u16_bytes(self.total_entry_count) + u32_bytes(
            self.central_directory_size,
        ) + u32_bytes(self.central_directory_offset) + u16_bytes(self.comment_length)
    }

    /// The bytes of the record: the fixed part, then the comment in UTF-8.
    pub open spec fn encode(self) -> Seq<u8> {
        self.encode_fixed() + encode_utf8(self.comment)
    }

    /// What the bytes of `data` from `pos` on decode to. The checks come in
    /// the order in which the fields are met: the signature, the rest of
    /// the fixed part, the comment.
    #[verifier::opaque]
    pub open spec fn decode(data: Seq<u8>, pos: int) -> Result<
        EndOfCentralDirectoryRecordView,
        ZipError,
    > {
        let comment_length = le_u16(data, pos + 20);
        let comment = data.subrange(pos + 22, pos + 22 + comment_length);
        if !ByteReader::in_range(data, pos, 4) {
            Err(ZipError::SomeIoError(IoError::EndOfFile))
        } else if le_u32(data, pos) != EOCDR_SIGNATURE {
            Err(ZipError::InvalidSignature(le_u32(data, pos)))
        } else if !ByteReader::in_range(data, pos, 22 + comment_length) {
            Err(ZipError::SomeIoError(IoError::EndOfFile))
        } else if !valid_utf8(comment) {
            Err(ZipError::NonUTF8Field)
        } else {
            Ok(
                EndOfCentralDirectoryRecordView {
                    disk_number: le_u16(data, pos + 4),
                    disk_number_with_start_of_central_directory: le_u16(data, pos + 6),
                    entry_count_this_disk: le_u16(data, pos + 8),
                    total_entry_count: le_u16(data, pos + 10),
                    central_directory_size: le_u32(data, pos + 12),
                    central_directory_offset: le_u32(data, pos + 16),
                    comment_length,
                    comment: decode_utf8(comment),
                },
            )
        }
    }
}

impl EndOfCentralDirectoryRecord {
    /// A record with every field zero or empty.
    pub fn new() -> (h: EndOfCentralDirectoryRecord)
        ensures
            h@ == EndOfCentralDirectoryRecordView::empty(),
    {
        EndOfCentralDirectoryRecord {
            disk_number: 0,
            disk_number_with_start_of_central_directory: 0,
            entry_count_this_disk: 0,
            total_entry_count: 0,
            central_directory_size: 0,
            central_directory_offset: 0,
            comment_length: 0,
            comment: String::new(),
        }
    }

    /// Reads the fields one after the other. After a failure `r` stands
    /// where the failure was met.
    fn read_fields(r: &mut ByteReader) -> (res: Result<EndOfCentralDirectoryRecord, ZipError>)
        ensures
            final(r).bytes() == old(r).bytes(),
            match res {
                Ok(h) => {
                    &&& EndOfCentralDirectoryRecordView::decode(old(r).bytes(), old(r).offset())
                        == Ok::<EndOfCentralDirectoryRecordView, ZipError>(h@)
                    &&& final(r).offset() == old(r).offset() + h@.total_size()
                },
                Err(e) => EndOfCentralDirectoryRecordView::decode(old(r).bytes(), old(r).offset())
                    == Err::<EndOfCentralDirectoryRecordView, ZipError>(e),
            },
    {
        reveal(EndOfCentralDirectoryRecordView::decode);
        let signature: u32 = read_u32(r)?;
        if signature != EOCDR_SIGNATURE {
            return Err(ZipError::InvalidSignature(signature));
        }
        let disk_number: u16 = read_u16(r)?;
        let disk_number_with_start_of_central_directory: u16 = read_u16(r)?;
        let entry_count_this_disk: u16 = read_u16(r)?;
        let total_entry_count: u16 = read_u16(r)?;
        let central_directory_size: u32 = read_u32(r)?;
        let central_directory_offset: u32 = read_u32(r)?;
        let comment_length: u16 = read_u16(r)?;
        let comment = read_text(r, comment_length)?;
        Ok(
            EndOfCentralDirectoryRecord {
                disk_number,
                disk_number_with_start_of_central_directory,
                entry_count_this_disk,
                total_entry_count,
                central_directory_size,
                central_directory_offset,
                comment_length,
                comment,
            },
        )
    }

    /// Decodes the end record that starts at the position of `r`.
    ///
    /// On success `r` stands behind the record, `total_size()` bytes
    /// further on. On failure `r` stands where it stood before the call.
    pub fn read(r: &mut ByteReader) -> (res: Result<EndOfCentralDirectoryRecord, ZipError>)
        ensures
            final(r).bytes() == old(r).bytes(),
            match res {
                Ok(h) => {
                    &&& EndOfCentralDirectoryRecordView::decode(old(r).bytes(), old(r).offset())
                        == Ok::<EndOfCentralDirectoryRecordView, ZipError>(h@)
                    &&& final(r).offset() == old(r).offset() + h@.total_size()
                },
                Err(e) => {
                    &&& EndOfCentralDirectoryRecordView::decode(old(r).bytes(), old(r).offset())
                        == Err::<EndOfCentralDirectoryRecordView, ZipError>(e)
                    &&& final(r).offset() == old(r).offset()
                },
            },
    {
        let start: u64 = r.tell();
        let res = Self::read_fields(r);
        if res.is_err() {
            r.seek(start);
        }
        res
    }

    /// Appends the encoded record to `w`, unless the comment is longer
    /// than 65535 bytes: then nothing is written.
    ///
    /// The length field is written as it stands.
    pub fn write(&self, w: &mut Vec<u8>) -> (res: Result<(), ZipError>)
        ensures
            match res {
                Ok(_) => self@.fits() && final(w)@ == old(w)@ + self@.encode(),
                Err(e) => !self@.fits() && e == ZipError::TooLongField && final(w)@ == old(w)@,
            },
    {
        let comment: &[u8] = self.comment.as_str().as_bytes();
        if comment.len() > MAX_FIELD_LENGTH {
            return Err(ZipError::TooLongField);
        }
        write_le_u32(w, EOCDR_SIGNATURE);
        write_le_u16(w, self.disk_number);
        write_le_u16(w, self.disk_number_with_start_of_central_directory);
        write_le_u16(w, self.entry_count_this_disk);
        write_le_u16(w, self.total_entry_count);
        write_le_u32(w, self.central_directory_size);
        write_le_u32(w, self.central_directory_offset);
        write_le_u16(w, self.comment_length);
        write_bytes(w, comment);
        proof {
            lemma_written(self@, old(w)@);
        }
        Ok(())
    }
}

/// Writing the parts of a header one after the other behind `base` is
/// writing the encoded header behind `base`.
proof fn lemma_written(h: EndOfCentralDirectoryRecordView, base: Seq<u8>)
    ensures
        base
            + u32_bytes(EOCDR_SIGNATURE)
            + u16_bytes(h.disk_number)
            + u16_bytes(h.disk_number_with_start_of_central_directory)
            + u16_bytes(h.entry_count_this_disk)
            + u16_bytes(h.total_entry_count)
            + u32_bytes(h.central_directory_size)
            + u32_bytes(h.central_directory_offset)
            + u16_bytes(h.comment_length)
            == base + h.encode_fixed(),
        base + h.encode_fixed() + encode_utf8(h.comment) == base + h.encode(),
{
    let mut so_far = u32_bytes(EOCDR_SIGNATURE);
    lemma_append_assoc(base, so_far, u16_bytes(h.disk_number));
    so_far = so_far + u16_bytes(h.disk_number);
    lemma_append_assoc(base, so_far, u16_bytes(h.disk_number_with_start_of_central_directory));
    so_far = so_far + u16_bytes(h.disk_number_with_start_of_central_directory);
    lemma_append_assoc(base, so_far, u16_bytes(h.entry_count_this_disk));
    so_far = so_far + u16_bytes(h.entry_count_this_disk);
    lemma_append_assoc(base, so_far, u16_bytes(h.total_entry_count));
    so_far = so_far + u16_bytes(h.total_entry_count);
    lemma_append_assoc(base, so_far, u32_bytes(h.central_directory_size));
    so_far = so_far + u32_bytes(h.central_directory_size);
    lemma_append_assoc(base, so_far, u32_bytes(h.central_directory_offset));
    so_far = so_far + u32_bytes(h.central_directory_offset);
    lemma_append_assoc(base, so_far, u16_bytes(h.comment_length));
    so_far = so_far + u16_bytes(h.comment_length);
    assert(so_far == h.encode_fixed());
    lemma_append_assoc(base, so_far, encode_utf8(h.comment));
    so_far = so_far + encode_utf8(h.comment);
    assert(so_far == h.encode());
}

/// The fixed part is 22 bytes long and holds each field at its offset.
proof fn lemma_fixed_part(h: EndOfCentralDirectoryRecordView)
    ensures
        h.encode_fixed().len() == 22,
        le_u32(h.encode_fixed(), 0) == EOCDR_SIGNATURE,
        le_u16(h.encode_fixed(), 4) == h.disk_number,
        le_u16(h.encode_fixed(), 6) == h.disk_number_with_start_of_central_directory,
        le_u16(h.encode_fixed(), 8) == h.entry_count_this_disk,
        le_u16(h.encode_fixed(), 10) == h.total_entry_count,
        le_u32(h.encode_fixed(), 12) == h.central_directory_size,
        le_u32(h.encode_fixed(), 16) == h.central_directory_offset,
        le_u16(h.encode_fixed(), 20) == h.comment_length,
{
    let f = h.encode_fixed();
    assert(f.len() == 22);
    assert(f.subrange(0, 4) =~= u32_bytes(EOCDR_SIGNATURE));
    assert(f.subrange(4, 6) =~= u16_bytes(h.disk_number));
    assert(f.subrange(6, 8) =~= u16_bytes(h.disk_number_with_start_of_central_directory));
    assert(f.subrange(8, 10) =~= u16_bytes(h.entry_count_this_disk));
    assert(f.subrange(10, 12) =~= u16_bytes(h.total_entry_count));
    assert(f.subrange(12, 16) =~= u32_bytes(h.central_directory_size));
    assert(f.subrange(16, 20) =~= u32_bytes(h.central_directory_offset));
    assert(f.subrange(20, 22) =~= u16_bytes(h.comment_length));
    lemma_le_u32_of_bytes(f, 0, EOCDR_SIGNATURE);
    lemma_le_u16_of_bytes(f, 4, h.disk_number);
    lemma_le_u16_of_bytes(f, 6, h.disk_number_with_start_of_central_directory);
    lemma_le_u16_of_bytes(f, 8, h.entry_count_this_disk);
    lemma_le_u16_of_bytes(f, 10, h.total_entry_count);
    lemma_le_u32_of_bytes(f, 12, h.central_directory_size);
    lemma_le_u32_of_bytes(f, 16, h.central_directory_offset);
    lemma_le_u16_of_bytes(f, 20, h.comment_length);
}

/// The 22 bytes of the fixed part, one by one.
pub proof fn lemma_fixed_bytes(h: EndOfCentralDirectoryRecordView)
    ensures
        h.encode_fixed() == seq![
            0x50u8,
            0x4bu8,
            0x05u8,
            0x06u8,
            (h.disk_number % 256) as u8,
            (h.disk_number / 256) as u8,
            (h.disk_number_with_start_of_central_directory % 256) as u8,
            (h.disk_number_with_start_of_central_directory / 256) as u8,
            (h.entry_count_this_disk % 256) as u8,
            (h.entry_count_this_disk / 256) as u8,
            (h.total_entry_count % 256) as u8,
            (h.total_entry_count / 256) as u8,
            (h.central_directory_size % 256) as u8,
            (h.central_directory_size / 256 % 256) as u8,
            (h.central_directory_size / 65536 % 256) as u8,
            (h.central_directory_size / 16777216) as u8,
            (h.central_directory_offset % 256) as u8,
            (h.central_directory_offset / 256 % 256) as u8,
            (h.central_directory_offset / 65536 % 256) as u8,
            (h.central_directory_offset / 16777216) as u8,
            (h.comment_length % 256) as u8,
            (h.comment_length / 256) as u8,
        ],
{
    let bytes = seq![
        0x50u8,
        0x4bu8,
        0x05u8,
        0x06u8,
        (h.disk_number % 256) as u8,
        (h.disk_number / 256) as u8,
        (h.disk_number_with_start_of_central_directory % 256) as u8,
        (h.disk_number_with_start_of_central_directory / 256) as u8,
        (h.entry_count_this_disk % 256) as u8,
        (h.entry_count_this_disk / 256) as u8,
        (h.total_entry_count % 256) as u8,
        (h.total_entry_count / 256) as u8,
        (h.central_directory_size % 256) as u8,
        (h.central_directory_size / 256 % 256) as u8,
        (h.central_directory_size / 65536 % 256) as u8,
        (h.central_directory_size / 16777216) as u8,
        (h.central_directory_offset % 256) as u8,
        (h.central_directory_offset / 256 % 256) as u8,
        (h.central_directory_offset / 65536 % 256) as u8,
        (h.central_directory_offset / 16777216) as u8,
        (h.comment_length % 256) as u8,
        (h.comment_length / 256) as u8,
    ];
    assert(h.encode_fixed() =~= bytes);
}

/// The integers read at an offset of `data` are those read in a copy of
/// the 22 bytes from `pos` on.
proof fn lemma_fields_of_window(data: Seq<u8>, pos: int, window: Seq<u8>)
    requires
        0 <= pos,
        pos + 22 <= data.len(),
        data.subrange(pos, pos + 22) == window,
    ensures
        forall|i: int| 0 <= i <= 20 ==> le_u16(data, pos + i) == #[trigger] le_u16(window, i),
        forall|i: int| 0 <= i <= 18 ==> le_u32(data, pos + i) == #[trigger] le_u32(window, i),
{
    assert forall|i: int| 0 <= i < 22 implies data[pos + i] == window[i] by {
        assert(window[i] == data.subrange(pos, pos + 22)[i]);
    }
}

/// What decoding gives is well formed and lies within the bytes it was
/// decoded from.
pub proof fn lemma_decoded_end_record(data: Seq<u8>, pos: int)
    requires
        EndOfCentralDirectoryRecordView::decode(data, pos) is Ok,
    ensures
        ({
            let h = EndOfCentralDirectoryRecordView::decode(data, pos)->Ok_0;
            &&& h.wf()
            &&& 0 <= pos
            &&& pos + h.total_size() <= data.len()
            &&& le_u32(data, pos) == EOCDR_SIGNATURE
        }),
{
    reveal(EndOfCentralDirectoryRecordView::decode);
    let c = le_u16(data, pos + 20);
    decode_utf8_encode_utf8(data.subrange(pos + 22, pos + 22 + c));
}

/// Where the parts of an encoded record lie when other bytes stand before
/// and after it.
proof fn lemma_parts(h: EndOfCentralDirectoryRecordView, before: Seq<u8>, after: Seq<u8>)
    requires
        h.wf(),
        h.encode_fixed().len() == 22,
    ensures
        ({
            let data = before + h.encode() + after;
            let p = before.len() as int;
            let c = h.comment_length as int;
            &&& h.encode().len() == 22 + c
            &&& data.len() == p + 22 + c + after.len()
            &&& data.subrange(p, p + 22) == h.encode_fixed()
            &&& data.subrange(p + 22, p + 22 + c) == encode_utf8(h.comment)
        }),
{
    let data = before + h.encode() + after;
    let p = before.len() as int;
    let c = h.comment_length as int;
    assert(data.subrange(p, p + 22) =~= h.encode_fixed());
    assert(data.subrange(p + 22, p + 22 + c) =~= encode_utf8(h.comment));
}

/// Decoding undoes encoding: the bytes of a well-formed record, whatever
/// stands before and after them, decode to that record, and the record's
/// total size is the number of bytes it was encoded in.
pub proof fn lemma_end_record_round_trip(
    h: EndOfCentralDirectoryRecordView,
    before: Seq<u8>,
    after: Seq<u8>,
)
    requires
        h.wf(),
    ensures
        h.encode().len() == h.total_size(),
        EndOfCentralDirectoryRecordView::decode(before + h.encode() + after, before.len() as int)
            == Ok::<EndOfCentralDirectoryRecordView, ZipError>(h),
{
    reveal(EndOfCentralDirectoryRecordView::decode);
    let data = before + h.encode() + after;
    let pos = before.len() as int;
    lemma_fixed_part(h);
    lemma_parts(h, before, after);
    lemma_fields_of_window(data, pos, h.encode_fixed());
    encode_utf8_valid_utf8(h.comment);
    encode_utf8_decode_utf8(h.comment);
}

} // verus!
