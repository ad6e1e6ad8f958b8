//! What holds of every archive: laws that relate opening, listing, lookup
//! and extraction to the bytes they work on.

use vstd::prelude::*;
use vstd::utf8::*;
use crate::central_header::lemma_central_header_round_trip;
use crate::central_header::CentralDirectoryHeaderView;
use crate::crc32::crc32_of;
use crate::end_record::lemma_end_record_round_trip;
use crate::end_record::lemma_fixed_bytes;
use crate::end_record::EndOfCentralDirectoryRecordView;
use crate::error::ZipError;
use crate::fileinfo::CompressionMethod;
use crate::format::EOCDR_SIGNATURE;
use crate::inflate::inflated;
use crate::local_header::lemma_local_header_round_trip;
use crate::local_header::LocalFileHeaderView;
use crate::reader::checked_payload;
use crate::reader::directory;
use crate::reader::end_record_of;
use crate::reader::end_record_offset;
use crate::reader::has_zip64_marker;
use crate::reader::is_end_record_offset;
use crate::reader::lemma_end_record_offset_unique;
use crate::reader::lookup;
use crate::reader::payload_at;
use crate::reader::signature_at;
use crate::reader::spans_disks;
use crate::reader::ZIP64_MARKER_32;
use crate::stream::lemma_append_assoc;
use crate::stream::lemma_middle;

verus! {

/// A walk that succeeds visits as many entries as it was asked for.
pub proof fn lemma_directory_length(data: Seq<u8>, offset: int, count: nat)
    ensures
        directory(data, offset, count) matches Ok(hs) ==> hs.len() == count,
    decreases count,
{
    if count > 0 {
        match CentralDirectoryHeaderView::decode(data, offset) {
            Ok(h) => {
                lemma_directory_length(data, offset + h.total_size(), (count - 1) as nat);
            },
            Err(_) => {},
        }
    }
}

/// The bytes of a central directory: its headers, encoded one after the
/// other.
pub open spec fn encode_directory(hs: Seq<CentralDirectoryHeaderView>) -> Seq<u8>
    decreases hs.len(),
{
    if hs.len() == 0 {
        Seq::empty()
    } else {
        hs[0].encode() + encode_directory(hs.drop_first())
    }
}

/// A walk over an encoded central directory gives back its headers, as
/// many as were encoded and in their order, whatever stands before and
/// after them.
pub proof fn lemma_directory_round_trip(
    hs: Seq<CentralDirectoryHeaderView>,
    before: Seq<u8>,
    after: Seq<u8>,
)
    requires
        forall|i: int| 0 <= i < hs.len() ==> (#[trigger] hs[i]).wf(),
    ensures
        directory(before + encode_directory(hs) + after, before.len() as int, hs.len()) == Ok::<
            Seq<CentralDirectoryHeaderView>,
            ZipError,
        >(hs),
    decreases hs.len(),
{
    if hs.len() == 0 {
        assert(hs =~= Seq::empty());
    } else {
        let h = hs[0];
        let rest = hs.drop_first();
        let tail = encode_directory(rest) + after;
        assert(encode_directory(hs) == h.encode() + encode_directory(rest));
        lemma_append_assoc(before, h.encode(), encode_directory(rest));
        lemma_append_assoc(before + h.encode(), encode_directory(rest), after);
        lemma_central_header_round_trip(h, before, tail);
        assert forall|i: int| 0 <= i < rest.len() implies (#[trigger] rest[i]).wf() by {
            assert(rest[i] == hs[i + 1]);
        }
        lemma_directory_round_trip(rest, before + h.encode(), after);
        assert(seq![h] + rest =~= hs);
    }
}

/// A name that no entry of the central directory has is not found.
pub proof fn lemma_lookup_absent(data: Seq<u8>, offset: int, count: nat, name: Seq<u8>)
    requires
        directory(data, offset, count) matches Ok(hs) && forall|i: int|
            0 <= i < hs.len() ==> encode_utf8(#[trigger] hs[i].file_name) != name,
    ensures
        lookup(data, offset, count, name) == Err::<CentralDirectoryHeaderView, ZipError>(
            ZipError::FileNotFoundInArchive,
        ),
    decreases count,
{
    if count > 0 {
        let h = CentralDirectoryHeaderView::decode(data, offset)->Ok_0;
        let rest = directory(data, offset + h.total_size(), (count - 1) as nat)->Ok_0;
        let hs = directory(data, offset, count)->Ok_0;
        assert(hs == seq![h] + rest);
        assert(hs[0] == h);
        assert forall|i: int| 0 <= i < rest.len() implies encode_utf8(
            #[trigger] rest[i].file_name,
        ) != name by {
            assert(rest[i] == hs[i + 1]);
        }
        lemma_lookup_absent(data, offset + h.total_size(), (count - 1) as nat, name);
    }
}

/// Of the entries that have a name, the first in the order of the central
/// directory is the one that a lookup finds.
pub proof fn lemma_lookup_first(data: Seq<u8>, offset: int, count: nat, name: Seq<u8>, k: int)
    requires
        directory(data, offset, count) matches Ok(hs) && 0 <= k < hs.len() && encode_utf8(
            hs[k].file_name,
        ) == name && forall|i: int| 0 <= i < k ==> encode_utf8(#[trigger] hs[i].file_name) != name,
    ensures
        lookup(data, offset, count, name) == Ok::<CentralDirectoryHeaderView, ZipError>(
            directory(data, offset, count)->Ok_0[k],
        ),
    decreases count,
{
    if count > 0 {
        let h = CentralDirectoryHeaderView::decode(data, offset)->Ok_0;
        let rest = directory(data, offset + h.total_size(), (count - 1) as nat)->Ok_0;
        let hs = directory(data, offset, count)->Ok_0;
        assert(hs == seq![h] + rest);
        assert(hs[0] == h);
        if k > 0 {
            assert(rest[k - 1] == hs[k]);
            assert forall|i: int| 0 <= i < k - 1 implies encode_utf8(
                #[trigger] rest[i].file_name,
            ) != name by {
                assert(rest[i] == hs[i + 1]);
            }
            lemma_lookup_first(data, offset + h.total_size(), (count - 1) as nat, name, k - 1);
        }
    }
}

/// An archive in which the end-record signature stands nowhere is not a
/// ZIP file; one of fewer than four bytes is such an archive.
pub proof fn lemma_no_signature(data: Seq<u8>)
    requires
        data.len() < 4 || forall|j: int| !signature_at(data, j),
    ensures
        end_record_of(data) == Err::<EndOfCentralDirectoryRecordView, ZipError>(
            ZipError::NotAZipFile,
        ),
{
}

/// Four bytes spell the end-record signature only if they are its bytes.
proof fn lemma_signature_bytes(data: Seq<u8>, at: int)
    requires
        signature_at(data, at),
    ensures
        data[at] == 0x50,
        data[at + 1] == 0x4b,
        data[at + 2] == 0x05,
        data[at + 3] == 0x06,
{
}

/// Whether the four bytes of `b` from index `i` on are those of the
/// end-record signature.
spec fn spells_signature(b: Seq<u8>, i: int) -> bool {
    b[i] == 0x50 && b[i + 1] == 0x4b && b[i + 2] == 0x05 && b[i + 3] == 0x06
}

/// The fixed part of an end record spells the signature at its start and,
/// under the conditions stated, nowhere else.
proof fn lemma_no_inner_signature(e: EndOfCentralDirectoryRecordView)
    requires
        e.comment_length == 0,
        !spans_disks(e),
        e.total_entry_count < 0x4b50,
        e.central_directory_size < 0x054b_5000,
        e.central_directory_offset != EOCDR_SIGNATURE,
    ensures
        e.encode_fixed().len() == 22,
        spells_signature(e.encode_fixed(), 0),
        forall|i: int| 1 <= i <= 18 ==> !spells_signature(e.encode_fixed(), i),
{
    let b = e.encode_fixed();
    lemma_fixed_bytes(e);
    let size = e.central_directory_size;
    let offset = e.central_directory_offset;
    assert(b[4] == 0 && b[5] == 0 && b[6] == 0 && b[7] == 0);
    assert(b[8] == b[10] && b[9] == b[11]);
    assert(b[20] == 0 && b[21] == 0);
    assert(!spells_signature(b, 10)) by {
        assert(b[11] != 0x4b || b[10] != 0x50);
    }
    assert(!spells_signature(b, 11)) by {
        assert(b[11] != 0x50);
    }
    assert(!spells_signature(b, 12)) by {
        assert(spells_signature(b, 12) ==> size == 0x0605_4b50);
    }
    assert(!spells_signature(b, 13)) by {
        assert(spells_signature(b, 13) ==> size >= 0x054b_5000);
    }
    assert(!spells_signature(b, 14)) by {
        assert(spells_signature(b, 14) ==> size >= 0x4b50_0000);
    }
    assert(!spells_signature(b, 15)) by {
        assert(spells_signature(b, 15) ==> size >= 0x5000_0000);
    }
    assert(!spells_signature(b, 16)) by {
        assert(spells_signature(b, 16) ==> offset == 0x0605_4b50);
    }
    assert forall|i: int| 1 <= i <= 18 implies !spells_signature(b, i) by {
        if i <= 9 {
            assert(!spells_signature(b, i));
        } else if i >= 17 {
            assert(!spells_signature(b, i));
        }
    }
}

/// Whether an end record is plain: it has no comment, describes an archive
/// in one part that is no ZIP64 archive, and is none of the few whose
/// counts and sizes spell the end-record signature. Such a record counts
/// fewer than 0x4b50 entries and a central directory of less than
/// 0x054b5000 bytes, which does not start at the offset 0x06054b50. The
/// end record of an archive of one entry meets the first two of these.
pub open spec fn plain_end_record(e: EndOfCentralDirectoryRecordView) -> bool {
    &&& e.wf()
    &&& e.comment_length == 0
    &&& !spans_disks(e)
    &&& !has_zip64_marker(e)
    &&& e.total_entry_count < 0x4b50
    &&& e.central_directory_size < 0x054b_5000
    &&& e.central_directory_offset != EOCDR_SIGNATURE
}

/// A plain end record that ends the archive is found where it stands, 22
/// bytes before the end, and the archive opens with it.
pub proof fn lemma_locate_plain_end_record(e: EndOfCentralDirectoryRecordView, before: Seq<u8>)
    requires
        plain_end_record(e),
    ensures
        (before + e.encode()).len() == before.len() + 22,
        is_end_record_offset(before + e.encode(), before.len() as int),
        end_record_offset(before + e.encode()) == Some(before.len() as int),
        end_record_of(before + e.encode()) == Ok::<EndOfCentralDirectoryRecordView, ZipError>(e),
{
    let data = before + e.encode();
    let p = before.len() as int;
    let fixed = e.encode_fixed();
    lemma_no_inner_signature(e);
    assert(e.encode() =~= fixed);
    assert(data.len() == p + 22);
    assert forall|i: int| 0 <= i < 22 implies data[p + i] == #[trigger] fixed[i] by {}
    assert(signature_at(data, p)) by {
        assert(data[p] == fixed[0] && data[p + 1] == fixed[1] && data[p + 2] == fixed[2] && data[p
            + 3] == fixed[3]);
    }
    assert forall|j: int| p < j implies !signature_at(data, j) by {
        if signature_at(data, j) {
            lemma_signature_bytes(data, j);
            let i = j - p;
            assert(data[j] == fixed[i] && data[j + 1] == fixed[i + 1] && data[j + 2] == fixed[i
                + 2] && data[j + 3] == fixed[i + 3]);
            assert(spells_signature(fixed, i));
        }
    }
    lemma_end_record_offset_unique(data, p);
    assert(data =~= before + e.encode() + Seq::<u8>::empty());
    lemma_end_record_round_trip(e, before, Seq::empty());
}

/// An archive that is put together from the bytes of its entries, its
/// central directory and a plain end record opens with that end record,
/// and a walk over its central directory gives the headers that were
/// encoded, as many as the end record counts.
pub proof fn lemma_archive_listing(
    body: Seq<u8>,
    hs: Seq<CentralDirectoryHeaderView>,
    e: EndOfCentralDirectoryRecordView,
)
    requires
        forall|i: int| 0 <= i < hs.len() ==> (#[trigger] hs[i]).wf(),
        plain_end_record(e),
        e.total_entry_count == hs.len(),
        e.central_directory_offset == body.len(),
    ensures
        ({
            let archive = body + encode_directory(hs) + e.encode();
            &&& end_record_of(archive) == Ok::<EndOfCentralDirectoryRecordView, ZipError>(e)
            &&& directory(
                archive,
                e.central_directory_offset as int,
                e.total_entry_count as nat,
            ) == Ok::<Seq<CentralDirectoryHeaderView>, ZipError>(hs)
        }),
{
    lemma_locate_plain_end_record(e, body + encode_directory(hs));
    lemma_directory_round_trip(hs, body, e.encode());
}

/// Contents are handed out only after they have been checked: whatever
/// extraction gives has the size and the CRC-32 that the local header
/// declares, and a stored entry's contents are the bytes behind its header.
pub proof fn lemma_payload_verified(data: Seq<u8>, offset: int)
    requires
        payload_at(data, offset) is Ok,
    ensures
        ({
            let bytes = payload_at(data, offset)->Ok_0;
            &&& LocalFileHeaderView::decode(data, offset) matches Ok(h)
            &&& bytes.len() == h.uncompressed_size
            &&& crc32_of(bytes) == h.crc32
            &&& CompressionMethod::of(h.compression_method) == CompressionMethod::Store
                ==> bytes == data.subrange(
                offset + h.total_size(),
                offset + h.total_size() + h.uncompressed_size,
            )
            &&& CompressionMethod::of(h.compression_method) == CompressionMethod::Deflate
                ==> inflated(
                data.subrange(offset + h.total_size(), offset + h.total_size() + h.compressed_size),
            ) == Some(bytes)
        }),
{
}

/// An entry that was stored as it is comes back byte for byte: where a
/// well-formed local header that declares the method Store, the length of
/// `content` and its CRC-32 is followed by `content`, extraction gives
/// `content`.
pub proof fn lemma_stored_entry(
    h: LocalFileHeaderView,
    content: Seq<u8>,
    before: Seq<u8>,
    after: Seq<u8>,
)
    requires
        h.wf(),
        CompressionMethod::of(h.compression_method) == CompressionMethod::Store,
        h.uncompressed_size == content.len(),
        h.uncompressed_size != ZIP64_MARKER_32,
        h.compressed_size != ZIP64_MARKER_32,
        h.crc32 == crc32_of(content),
    ensures
        payload_at(before + h.encode() + content + after, before.len() as int) == Ok::<
            Seq<u8>,
            ZipError,
        >(content),
{
    lemma_local_header_round_trip(h, before, content + after);
    lemma_append_assoc(before + h.encode(), content, after);
    lemma_middle(before + h.encode(), content, after);
}

/// What extraction makes of a deflated entry depends on what its
/// compressed bytes inflate to: where a well-formed local header that
/// declares the method Deflate and the length of `compressed` is followed
/// by `compressed`, the result is the inflated bytes, checked against the
/// declared size and CRC-32. So bytes that still inflate to the declared
/// size, but not to the declared CRC-32, give a CRC error.
pub proof fn lemma_deflated_entry(
    h: LocalFileHeaderView,
    compressed: Seq<u8>,
    before: Seq<u8>,
    after: Seq<u8>,
)
    requires
        h.wf(),
        CompressionMethod::of(h.compression_method) == CompressionMethod::Deflate,
        h.compressed_size == compressed.len(),
        h.uncompressed_size != ZIP64_MARKER_32,
        h.compressed_size != ZIP64_MARKER_32,
    ensures
        payload_at(before + h.encode() + compressed + after, before.len() as int)
            == checked_payload(inflated(compressed), h.uncompressed_size, h.crc32),
        inflated(compressed) matches Some(out) && out.len() == h.uncompressed_size && crc32_of(out)
            != h.crc32 ==> payload_at(
            before + h.encode() + compressed + after,
            before.len() as int,
        ) == Err::<Seq<u8>, ZipError>(ZipError::CrcError),
{
    lemma_local_header_round_trip(h, before, compressed + after);
    lemma_append_assoc(before + h.encode(), compressed, after);
    lemma_middle(before + h.encode(), compressed, after);
}

} // verus!
