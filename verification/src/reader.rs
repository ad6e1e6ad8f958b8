//! Reading an archive: finding its end record, walking its central
//! directory, and extracting entries.

use vstd::prelude::*;
use vstd::utf8::*;
use crate::central_header::CentralDirectoryHeader;
use crate::central_header::CentralDirectoryHeaderView;
use crate::crc32::crc32;
use crate::crc32::crc32_of;
use crate::end_record::EndOfCentralDirectoryRecord;
use crate::end_record::EndOfCentralDirectoryRecordView;
use crate::error::IoError;
use crate::error::ZipError;
use crate::fileinfo::CompressionMethod;
use crate::fileinfo::FileInfo;
use crate::fileinfo::FileInfoView;
use crate::format::EOCDR_SIGNATURE;
use crate::inflate::inflate_bytes;
use crate::inflate::inflated;
use crate::local_header::LocalFileHeader;
use crate::local_header::LocalFileHeaderView;
use crate::stream::get_le_u32;
use crate::stream::le_u32;
use crate::stream::ByteReader;

verus! {

/// The value that a 16-bit field holds when the real value stands in a
/// ZIP64 record.
pub const ZIP64_MARKER_16: u16 = 0xffff;

/// The value that a 32-bit field holds when the real value stands in a
/// ZIP64 record.
pub const ZIP64_MARKER_32: u32 = 0xffff_ffff;

/// Whether the four bytes at offset `at` are the end-record signature.
pub open spec fn signature_at(data: Seq<u8>, at: int) -> bool {
    ByteReader::in_range(data, at, 4) && le_u32(data, at) == EOCDR_SIGNATURE
}

/// Whether `at` is the offset nearest to the end of `data` at which the
/// end-record signature stands.
pub open spec fn is_end_record_offset(data: Seq<u8>, at: int) -> bool {
    signature_at(data, at) && forall|j: int| at < j ==> !signature_at(data, j)
}

/// The offset of the end record, if the signature occurs at all.
pub open spec fn end_record_offset(data: Seq<u8>) -> Option<int> {
    if exists|at: int| is_end_record_offset(data, at) {
        Some(choose|at: int| is_end_record_offset(data, at))
    } else {
        None
    }
}

/// Whether an end record holds a field that defers to a ZIP64 record.
pub open spec fn has_zip64_marker(e: EndOfCentralDirectoryRecordView) -> bool {
    ||| e.disk_number == ZIP64_MARKER_16
    ||| e.disk_number_with_start_of_central_directory == ZIP64_MARKER_16
    ||| e.entry_count_this_disk == ZIP64_MARKER_16
    ||| e.total_entry_count == ZIP64_MARKER_16
    ||| e.central_directory_size == ZIP64_MARKER_32
    ||| e.central_directory_offset == ZIP64_MARKER_32
}

/// Whether an end record describes an archive in several parts.
pub open spec fn spans_disks(e: EndOfCentralDirectoryRecordView) -> bool {
    ||| e.disk_number != 0
    ||| e.disk_number_with_start_of_central_directory != 0
    ||| e.entry_count_this_disk != e.total_entry_count
}

/// The end record of the archive `data`, or the reason why the archive
/// cannot be read: no signature, a record that does not decode, a ZIP64
/// archive, an archive in several parts.
pub open spec fn end_record_of(data: Seq<u8>) -> Result<EndOfCentralDirectoryRecordView, ZipError> {
    match end_record_offset(data) {
        None => Err(ZipError::NotAZipFile),
        Some(at) => match EndOfCentralDirectoryRecordView::decode(data, at) {
            Err(e) => Err(e),
            Ok(e) => if has_zip64_marker(e) {
                Err(ZipError::Zip64Archive)
            } else if spans_disks(e) {
                Err(ZipError::MultiDiskArchive)
            } else {
                Ok(e)
            },
        },
    }
}

/// Only one offset is the nearest to the end.
pub proof fn lemma_end_record_offset_unique(data: Seq<u8>, at: int)
    requires
        is_end_record_offset(data, at),
    ensures
        end_record_offset(data) == Some(at),
{
    let other = choose|k: int| is_end_record_offset(data, k);
    assert(signature_at(data, at));
    assert(signature_at(data, other));
}

/// Finds the end record: the offset nearest to the end of the stream at
/// which the end-record signature stands. Whether a record really starts
/// there is not looked into.
pub fn locate_end_record(r: &ByteReader) -> (res: Result<u64, ZipError>)
    ensures
        match res {
            Ok(at) => is_end_record_offset(r.bytes(), at as int) && end_record_offset(r.bytes())
                == Some(at as int),
            Err(e) => e == ZipError::NotAZipFile && end_record_offset(r.bytes()) is None
                && forall|j: int| !signature_at(r.bytes(), j),
        },
{
    let data: &[u8] = r.as_slice();
    let file_size: usize = data.len();
    if file_size < 4 {
        return Err(ZipError::NotAZipFile);
    }
    let mut offset: usize = file_size - 4;
    loop
        invariant
            data@ == r.bytes(),
            file_size == data@.len(),
            offset + 4 <= file_size,
            forall|j: int| offset < j ==> !signature_at(data@, j),
        decreases offset,
    {
        if get_le_u32(data, offset) == EOCDR_SIGNATURE {
            proof {
                lemma_end_record_offset_unique(data@, offset as int);
            }
            return Ok(offset as u64);
        }
        if offset == 0 {
            return Err(ZipError::NotAZipFile);
        }
        offset = offset - 1;
    }
}

/// The most bytes that a central directory header can take.
pub const MAX_CDH_SIZE: u64 = 196651;

/// The headers of the `count` entries whose first header starts at
/// `offset`, in the order in which they are stored, or the error of the
/// first header that does not decode.
pub open spec fn directory(data: Seq<u8>, offset: int, count: nat) -> Result<
    Seq<CentralDirectoryHeaderView>,
    ZipError,
>
    decreases count,
{
    if count == 0 {
        Ok(Seq::empty())
    } else {
        match CentralDirectoryHeaderView::decode(data, offset) {
            Err(e) => Err(e),
            Ok(h) => match directory(data, offset + h.total_size(), (count - 1) as nat) {
                Err(e) => Err(e),
                Ok(rest) => Ok(seq![h] + rest),
            },
        }
    }
}

/// The header of the first of `count` entries, stored from `offset` on,
/// whose name in UTF-8 is `name`. Where a header does not decode before
/// such an entry is met, the result is its error; where all decode and
/// none has the name, the entry is not found.
pub open spec fn lookup(data: Seq<u8>, offset: int, count: nat, name: Seq<u8>) -> Result<
    CentralDirectoryHeaderView,
    ZipError,
>
    decreases count,
{
    if count == 0 {
        Err(ZipError::FileNotFoundInArchive)
    } else {
        match CentralDirectoryHeaderView::decode(data, offset) {
            Err(e) => Err(e),
            Ok(h) => if encode_utf8(h.file_name) == name {
                Ok(h)
            } else {
                lookup(data, offset + h.total_size(), (count - 1) as nat, name)
            },
        }
    }
}

/// What becomes of a payload once it has been read and, where needed,
/// inflated: it must have been inflated at all, have the declared size,
/// and have the declared CRC-32, in this order.
pub open spec fn checked_payload(payload: Option<Seq<u8>>, size: u32, crc: u32) -> Result<
    Seq<u8>,
    ZipError,
> {
    match payload {
        None => Err(ZipError::SomeIoError(IoError::DecompressionFailure)),
        Some(bytes) => if bytes.len() != size {
            Err(ZipError::SomeIoError(IoError::SizeMismatch))
        } else if crc32_of(bytes) != crc {
            Err(ZipError::CrcError)
        } else {
            Ok(bytes)
        },
    }
}

/// The contents of the entry whose local file header starts at `offset`,
/// or the reason why they cannot be had. The local header is trusted for
/// method, sizes and CRC-32.
pub open spec fn payload_at(data: Seq<u8>, offset: int) -> Result<Seq<u8>, ZipError> {
    match LocalFileHeaderView::decode(data, offset) {
        Err(e) => Err(e),
        Ok(h) => {
            let start = offset + h.total_size();
            if h.compressed_size == ZIP64_MARKER_32 || h.uncompressed_size == ZIP64_MARKER_32 {
                Err(ZipError::Zip64Archive)
            } else {
                match CompressionMethod::of(h.compression_method) {
                    CompressionMethod::Store => if !ByteReader::in_range(
                        data,
                        start,
                        h.uncompressed_size as int,
                    ) {
                        Err(ZipError::SomeIoError(IoError::EndOfFile))
                    } else {
                        checked_payload(
                            Some(data.subrange(start, start + h.uncompressed_size)),
                            h.uncompressed_size,
                            h.crc32,
                        )
                    },
                    CompressionMethod::Deflate => if !ByteReader::in_range(
                        data,
                        start,
                        h.compressed_size as int,
                    ) {
                        Err(ZipError::SomeIoError(IoError::EndOfFile))
                    } else {
                        checked_payload(
                            inflated(data.subrange(start, start + h.compressed_size)),
                            h.uncompressed_size,
                            h.crc32,
                        )
                    },
                    CompressionMethod::Unknown => Err(
                        ZipError::UnsupportedMethod(h.compression_method),
                    ),
                }
            }
        },
    }
}

/// Whether two byte strings are the same.
pub fn bytes_eq(a: &[u8], b: &[u8]) -> (same: bool)
    ensures
        same == (a@ == b@),
{
    if a.len() != b.len() {
        return false;
    }
    let mut i: usize = 0;
    while i < a.len()
        invariant
            a@.len() == b@.len(),
            i <= a@.len(),
            forall|j: int| 0 <= j < i ==> a@[j] == b@[j],
        decreases a@.len() - i,
    {
        if a[i] != b[i] {
            return false;
        }
        i = i + 1;
    }
    assert(a@ =~= b@);
    true
}

/// The mathematical value of a payload that may be missing.
pub open spec fn payload_view(payload: Option<Vec<u8>>) -> Option<Seq<u8>> {
    match payload {
        Some(bytes) => Some(bytes@),
        None => None,
    }
}

/// Accepts a payload that was read and, where needed, inflated, if it has
/// the declared size and CRC-32. `None` stands for a payload that could
/// not be inflated.
pub fn check_payload(payload: Option<Vec<u8>>, size: u32, crc: u32) -> (res: Result<
    Vec<u8>,
    ZipError,
>)
    ensures
        match res {
            Ok(bytes) => checked_payload(payload_view(payload), size, crc) == Ok::<
                Seq<u8>,
                ZipError,
            >(bytes@),
            Err(e) => checked_payload(payload_view(payload), size, crc) == Err::<
                Seq<u8>,
                ZipError,
            >(e),
        },
{
    match payload {
        None => Err(ZipError::SomeIoError(IoError::DecompressionFailure)),
        Some(bytes) => {
            if bytes.len() != size as usize {
                Err(ZipError::SomeIoError(IoError::SizeMismatch))
            } else if crc32(bytes.as_slice()) != crc {
                Err(ZipError::CrcError)
            } else {
                Ok(bytes)
            }
        },
    }
}

/// An archive that has been opened: its bytes and its end record.
pub struct ZipReader {
    reader: ByteReader,
    end_record: EndOfCentralDirectoryRecord,
}

impl ZipReader {
    /// The bytes of the archive.
    pub closed spec fn archive(&self) -> Seq<u8> {
        self.reader.bytes()
    }

    /// The end record that was found when the archive was opened.
    pub closed spec fn end_record(&self) -> EndOfCentralDirectoryRecordView {
        self.end_record@
    }

    /// Whether the end record is the one that the bytes hold. `new`
    /// establishes this, and every method keeps it, since none changes the
    /// bytes or the end record.
    pub open spec fn wf(&self) -> bool {
        end_record_of(self.archive()) == Ok::<EndOfCentralDirectoryRecordView, ZipError>(
            self.end_record(),
        )
    }

    /// Opens the archive that `reader` holds: finds the end record, decodes
    /// it, and refuses ZIP64 archives and archives in several parts.
    pub fn new(reader: ByteReader) -> (res: Result<ZipReader, ZipError>)
        ensures
            match res {
                Ok(z) => {
                    &&& z.wf()
                    &&& z.archive() == reader.bytes()
                    &&& end_record_of(reader.bytes()) == Ok::<
                        EndOfCentralDirectoryRecordView,
                        ZipError,
                    >(z.end_record())
                },
                Err(e) => end_record_of(reader.bytes()) == Err::<
                    EndOfCentralDirectoryRecordView,
                    ZipError,
                >(e),
            },
    {
        let mut r = reader;
        let at: u64 = match locate_end_record(&r) {
            Ok(at) => at,
            Err(e) => {
                return Err(e);
            },
        };
        r.seek(at);
        let e = EndOfCentralDirectoryRecord::read(&mut r)?;
        if e.disk_number == ZIP64_MARKER_16 || e.disk_number_with_start_of_central_directory
            == ZIP64_MARKER_16 || e.entry_count_this_disk == ZIP64_MARKER_16 || e.total_entry_count
            == ZIP64_MARKER_16 || e.central_directory_size == ZIP64_MARKER_32
            || e.central_directory_offset == ZIP64_MARKER_32 {
            return Err(ZipError::Zip64Archive);
        }
        if e.disk_number != 0 || e.disk_number_with_start_of_central_directory != 0
            || e.entry_count_this_disk != e.total_entry_count {
            return Err(ZipError::MultiDiskArchive);
        }
        Ok(ZipReader { reader: r, end_record: e })
    }

    /// The headers of the central directory, or the error of the first one
    /// that does not decode.
    pub open spec fn entries(&self) -> Result<Seq<CentralDirectoryHeaderView>, ZipError> {
        directory(
            self.archive(),
            self.end_record().central_directory_offset as int,
            self.end_record().total_entry_count as nat,
        )
    }

    /// A cursor at the first entry of the central directory.
    pub fn files_raw<'a>(&'a mut self) -> (files: Files<'a>)
        ensures
            *final(self) == *final(files.zip_reader),
            files.zip_reader.archive() == old(self).archive(),
            files.zip_reader.end_record() == old(self).end_record(),
            files.current_entry == 0,
            files.current_offset == old(self).end_record().central_directory_offset,
            files.wf(),
    {
        let offset: u32 = self.end_record.central_directory_offset;
        Files { zip_reader: self, current_entry: 0, current_offset: offset as u64 }
    }

    /// The descriptions of all entries, in the order of the central
    /// directory, or the error of the first header that does not decode.
    pub fn files(&mut self) -> (res: Result<Vec<FileInfo>, ZipError>)
        ensures
            final(self).archive() == old(self).archive(),
            final(self).end_record() == old(self).end_record(),
            match res {
                Ok(v) => {
                    &&& old(self).entries() matches Ok(hs)
                    &&& v@.len() == hs.len()
                    &&& v@.len() == old(self).end_record().total_entry_count
                    &&& forall|i: int|
                        0 <= i < hs.len() ==> (#[trigger] v@[i])@ == FileInfoView::of(hs[i])
                },
                Err(e) => old(self).entries() == Err::<
                    Seq<CentralDirectoryHeaderView>,
                    ZipError,
                >(e),
            },
    {
        let ghost data = self.archive();
        let ghost start = self.end_record().central_directory_offset as int;
        let ghost total = self.end_record().total_entry_count as nat;
        let mut out: Vec<FileInfo> = Vec::new();
        let ghost mut seen: Seq<CentralDirectoryHeaderView> = Seq::empty();
        let mut files = self.files_raw();
        loop
            invariant
                files.wf(),
                after_borrow(*self) == *final(files.zip_reader),
                files.zip_reader.archive() == data,
                files.zip_reader.end_record().total_entry_count == total,
                files.zip_reader.end_record() == old(self).end_record(),
                files.current_entry <= total,
                data == old(self).archive(),
                start == old(self).end_record().central_directory_offset,
                total == old(self).end_record().total_entry_count,
                seen.len() == files.current_entry,
                out@.len() == seen.len(),
                forall|i: int|
                    0 <= i < seen.len() ==> (#[trigger] out@[i])@ == FileInfoView::of(seen[i]),
                directory(data, start, total) == joined(
                    seen,
                    directory(
                        data,
                        files.current_offset as int,
                        (total - files.current_entry) as nat,
                    ),
                ),
            ensures
                files.current_entry == total,
            decreases total - files.current_entry,
        {
            let ghost before = files.current_offset as int;
            let ghost left = (total - files.current_entry) as nat;
            match files.next() {
                None => {
                    break ;
                },
                Some(Ok(info)) => {
                    proof {
                        let h = CentralDirectoryHeaderView::decode(data, before)->Ok_0;
                        let rest = directory(data, before + h.total_size(), (left - 1) as nat);
                        if rest is Ok {
                            assert(seen.push(h) + rest->Ok_0 =~= seen + (seq![h] + rest->Ok_0));
                        }
                        seen = seen.push(h);
                    }
                    out.push(info);
                },
                Some(Err(e)) => {
                    return Err(e);
                },
            }
        }
        assert(seen + Seq::<CentralDirectoryHeaderView>::empty() =~= seen);
        Ok(out)
    }

    /// The names of all entries, in the order of the central directory, or
    /// the error of the first header that does not decode.
    pub fn file_names(&mut self) -> (res: Result<Vec<String>, ZipError>)
        ensures
            final(self).archive() == old(self).archive(),
            final(self).end_record() == old(self).end_record(),
            match res {
                Ok(v) => {
                    &&& old(self).entries() matches Ok(hs)
                    &&& v@.len() == hs.len()
                    &&& v@.len() == old(self).end_record().total_entry_count
                    &&& forall|i: int|
                        0 <= i < hs.len() ==> (#[trigger] v@[i])@ == hs[i].file_name
                },
                Err(e) => old(self).entries() == Err::<
                    Seq<CentralDirectoryHeaderView>,
                    ZipError,
                >(e),
            },
    {
        let infos: Vec<FileInfo> = self.files()?;
        let mut names: Vec<String> = Vec::new();
        let mut i: usize = 0;
        while i < infos.len()
            invariant
                i <= infos@.len(),
                names@.len() == i,
                forall|j: int| 0 <= j < i ==> (#[trigger] names@[j])@ == infos@[j]@.name,
            decreases infos@.len() - i,
        {
            names.push(infos[i].name.clone());
            i = i + 1;
        }
        Ok(names)
    }

    /// The description of the first entry whose name, byte for byte, is
    /// `name`. Headers behind that entry are not looked at.
    pub fn info(&mut self, name: &[u8]) -> (res: Result<FileInfo, ZipError>)
        ensures
            final(self).archive() == old(self).archive(),
            final(self).end_record() == old(self).end_record(),
            match res {
                Ok(f) => old(self).find(name@) matches Ok(h) && f@ == FileInfoView::of(h),
                Err(e) => old(self).find(name@) == Err::<CentralDirectoryHeaderView, ZipError>(e),
            },
    {
        let ghost data = self.archive();
        let ghost start = self.end_record().central_directory_offset as int;
        let ghost total = self.end_record().total_entry_count as nat;
        let mut files = self.files_raw();
        loop
            invariant
                files.wf(),
                after_borrow(*self) == *final(files.zip_reader),
                files.zip_reader.archive() == data,
                files.zip_reader.end_record() == old(self).end_record(),
                files.current_entry <= total,
                data == old(self).archive(),
                start == old(self).end_record().central_directory_offset,
                total == old(self).end_record().total_entry_count,
                lookup(data, start, total, name@) == lookup(
                    data,
                    files.current_offset as int,
                    (total - files.current_entry) as nat,
                    name@,
                ),
            ensures
                files.current_entry == total,
            decreases total - files.current_entry,
        {
            match files.next() {
                None => {
                    break ;
                },
                Some(Ok(info)) => {
                    if bytes_eq(info.name.as_str().as_bytes(), name) {
                        return Ok(info);
                    }
                },
                Some(Err(e)) => {
                    return Err(e);
                },
            }
        }
        Err(ZipError::FileNotFoundInArchive)
    }

    /// The header that a lookup of `name` finds, or the reason why it
    /// finds none.
    pub open spec fn find(&self, name: Seq<u8>) -> Result<CentralDirectoryHeaderView, ZipError> {
        lookup(
            self.archive(),
            self.end_record().central_directory_offset as int,
            self.end_record().total_entry_count as nat,
            name,
        )
    }

    /// Reads `size` bytes from offset `pos`.
    fn read_stored_file(&mut self, pos: u64, size: u32) -> (res: Result<Vec<u8>, IoError>)
        ensures
            final(self).archive() == old(self).archive(),
            final(self).end_record() == old(self).end_record(),
            match res {
                Ok(bytes) => {
                    &&& ByteReader::in_range(old(self).archive(), pos as int, size as int)
                    &&& bytes@ == old(self).archive().subrange(pos as int, pos + size)
                },
                Err(e) => {
                    &&& !ByteReader::in_range(old(self).archive(), pos as int, size as int)
                    &&& e == IoError::EndOfFile
                },
            },
    {
        self.reader.seek(pos);
        self.reader.read_exact(size as usize)
    }

    /// Reads `size` bytes from offset `pos` and inflates them; `None`
    /// stands for bytes that do not inflate.
    fn read_deflated_file(&mut self, pos: u64, size: u32) -> (res: Result<
        Option<Vec<u8>>,
        IoError,
    >)
        ensures
            final(self).archive() == old(self).archive(),
            final(self).end_record() == old(self).end_record(),
            match res {
                Ok(out) => {
                    &&& ByteReader::in_range(old(self).archive(), pos as int, size as int)
                    &&& match out {
                        Some(bytes) => inflated(
                            old(self).archive().subrange(pos as int, pos + size),
                        ) == Some(bytes@),
                        None => inflated(old(self).archive().subrange(pos as int, pos + size))
                            is None,
                    }
                },
                Err(e) => {
                    &&& !ByteReader::in_range(old(self).archive(), pos as int, size as int)
                    &&& e == IoError::EndOfFile
                },
            },
    {
        self.reader.seek(pos);
        let compressed: Vec<u8> = self.reader.read_exact(size as usize)?;
        Ok(inflate_bytes(compressed.as_slice()))
    }

    /// The contents of the entry that `f` describes: read from behind its
    /// local file header, inflated where the header says so, and handed
    /// out only if size and CRC-32 are as the header declares.
    pub fn read(&mut self, f: &FileInfo) -> (res: Result<Vec<u8>, ZipError>)
        ensures
            final(self).archive() == old(self).archive(),
            final(self).end_record() == old(self).end_record(),
            match res {
                Ok(bytes) => payload_at(old(self).archive(), f.local_file_header_offset as int)
                    == Ok::<Seq<u8>, ZipError>(bytes@),
                Err(e) => payload_at(old(self).archive(), f.local_file_header_offset as int)
                    == Err::<Seq<u8>, ZipError>(e),
            },
    {
        self.reader.seek(f.local_file_header_offset as u64);
        let h = LocalFileHeader::read(&mut self.reader)?;
        if h.compressed_size == ZIP64_MARKER_32 || h.uncompressed_size == ZIP64_MARKER_32 {
            return Err(ZipError::Zip64Archive);
        }
        let file_offset: u64 = f.local_file_header_offset as u64 + h.total_size() as u64;
        let payload: Option<Vec<u8>> = match CompressionMethod::from_u16(h.compression_method) {
            CompressionMethod::Store => match self.read_stored_file(
                file_offset,
                h.uncompressed_size,
            ) {
                Ok(bytes) => Some(bytes),
                Err(e) => {
                    return Err(ZipError::SomeIoError(e));
                },
            },
            CompressionMethod::Deflate => match self.read_deflated_file(
                file_offset,
                h.compressed_size,
            ) {
                Ok(out) => out,
                Err(e) => {
                    return Err(ZipError::SomeIoError(e));
                },
            },
            CompressionMethod::Unknown => {
                return Err(ZipError::UnsupportedMethod(h.compression_method));
            },
        };
        check_payload(payload, h.uncompressed_size, h.crc32)
    }

    /// Appends the contents of the entry that `f` describes to `writer`.
    /// Where they cannot be had, nothing is appended.
    pub fn extract(&mut self, f: &FileInfo, writer: &mut Vec<u8>) -> (res: Result<(), ZipError>)
        ensures
            final(self).archive() == old(self).archive(),
            final(self).end_record() == old(self).end_record(),
            match res {
                Ok(_) => payload_at(old(self).archive(), f.local_file_header_offset as int)
                    matches Ok(bytes) && final(writer)@ == old(writer)@ + bytes,
                Err(e) => {
                    &&& payload_at(old(self).archive(), f.local_file_header_offset as int)
                        == Err::<Seq<u8>, ZipError>(e)
                    &&& final(writer)@ == old(writer)@
                },
            },
    {
        match self.read(f) {
            Ok(bytes) => {
                writer.extend_from_slice(bytes.as_slice());
                assert(writer@ =~= old(writer)@ + bytes@);
                Ok(())
            },
            Err(x) => Err(x),
        }
    }
}

/// The entries `seen` followed by what the rest of a walk gives.
pub open spec fn joined(
    seen: Seq<CentralDirectoryHeaderView>,
    rest: Result<Seq<CentralDirectoryHeaderView>, ZipError>,
) -> Result<Seq<CentralDirectoryHeaderView>, ZipError> {
    match rest {
        Ok(hs) => Ok(seen + hs),
        Err(e) => Err(e),
    }
}

/// A cursor over the central directory of an archive, which it borrows
/// for as long as it lives.
pub struct Files<'a> {
    pub zip_reader: &'a mut ZipReader,
    pub current_entry: u16,
    pub current_offset: u64,
}

impl<'a> Files<'a> {
    /// Whether the offset is one that the cursor can have reached from the
    /// start of a central directory.
    pub open spec fn wf(&self) -> bool {
        self.current_offset <= 0xffff_ffff + self.current_entry * MAX_CDH_SIZE
    }

    /// Decodes the entry under the cursor and moves to the next one.
    ///
    /// When as many entries have been visited as the end record counts,
    /// the result is `None`. A header that does not decode is reported
    /// once, and ends the walk.
    pub fn next(&mut self) -> (res: Option<Result<FileInfo, ZipError>>)
        requires
            old(self).wf(),
        ensures
            final(self).wf(),
            *final(final(self).zip_reader) == *final(old(self).zip_reader),
            final(self).zip_reader.archive() == old(self).zip_reader.archive(),
            final(self).zip_reader.end_record() == old(self).zip_reader.end_record(),
            ({
                let data = old(self).zip_reader.archive();
                let total = old(self).zip_reader.end_record().total_entry_count;
                if old(self).current_entry >= total {
                    &&& res is None
                    &&& final(self).current_entry == old(self).current_entry
                    &&& final(self).current_offset == old(self).current_offset
                } else {
                    match CentralDirectoryHeaderView::decode(
                        data,
                        old(self).current_offset as int,
                    ) {
                        Ok(h) => {
                            &&& res matches Some(Ok(f)) && f@ == FileInfoView::of(h)
                            &&& final(self).current_entry == old(self).current_entry + 1
                            &&& final(self).current_offset == old(self).current_offset
                                + h.total_size()
                        },
                        Err(e) => {
                            &&& res == Some(Err::<FileInfo, ZipError>(e))
                            &&& final(self).current_entry == total
                            &&& final(self).current_offset == old(self).current_offset
                        },
                    }
                }
            }),
    {
        let total: u16 = self.zip_reader.end_record.total_entry_count;
        if self.current_entry >= total {
            return None;
        }
        self.zip_reader.reader.seek(self.current_offset);
        match CentralDirectoryHeader::read(&mut self.zip_reader.reader) {
            Ok(h) => {
                let info = FileInfo::from_cdh(&h);
                self.current_entry = self.current_entry + 1;
                self.current_offset = self.current_offset + h.total_size() as u64;
                Some(Ok(info))
            },
            Err(e) => {
                self.current_entry = total;
                Some(Err(e))
            },
        }
    }
}

} // verus!
