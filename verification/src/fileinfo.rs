//! What a caller gets to know of an entry.

use vstd::prelude::*;
use crate::central_header::CentralDirectoryHeader;
use crate::central_header::CentralDirectoryHeaderView;
use crate::datetime::MsdosDateTime;

verus! {

/// The method id of an entry that is stored as it is.
pub const METHOD_STORE: u16 = 0;

/// The method id of an entry that is compressed with DEFLATE.
pub const METHOD_DEFLATE: u16 = 8;

/// How the payload of an entry is compressed.
#[derive(Clone, Copy, Debug, PartialEq, Eq, Structural)]
pub enum CompressionMethod {
    Store,
    Deflate,
    Unknown,
}

impl CompressionMethod {
    /// The method that the id `id` stands for.
    pub open spec fn of(id: u16) -> CompressionMethod {
        if id == METHOD_STORE {
            CompressionMethod::Store
        } else if id == METHOD_DEFLATE {
            CompressionMethod::Deflate
        } else {
            CompressionMethod::Unknown
        }
    }

    /// The method that the id `id` stands for; every id but 0 and 8 is
    /// unknown.
    pub fn from_u16(id: u16) -> (m: CompressionMethod)
        ensures
            m == Self::of(id),
    {
        if id == METHOD_STORE {
            CompressionMethod::Store
        } else if id == METHOD_DEFLATE {
            CompressionMethod::Deflate
        } else {
            CompressionMethod::Unknown
        }
    }
}

/// The description of one entry, taken from its central directory header.
/// It holds no reference to the archive it came from.
#[derive(Clone, Debug, PartialEq, Eq)]
pub struct FileInfo {
    pub name: String,
    pub compression_method: CompressionMethod,
    pub last_modified_datetime: MsdosDateTime,
    pub compressed_size: u32,
    pub uncompressed_size: u32,
    pub local_file_header_offset: u32,
}

/// The mathematical value of an entry's description.
pub struct FileInfoView {
    pub name: Seq<char>,
    pub compression_method: CompressionMethod,
    pub last_modified_datetime: MsdosDateTime,
    pub compressed_size: u32,
    pub uncompressed_size: u32,
    pub local_file_header_offset: u32,
}

impl View for FileInfo {
    type V = FileInfoView;

    open spec fn view(&self) -> FileInfoView {
        FileInfoView {
            name: self.name@,
            compression_method: self.compression_method,
            last_modified_datetime: self.last_modified_datetime,
            compressed_size: self.compressed_size,
            uncompressed_size: self.uncompressed_size,
            local_file_header_offset: self.local_file_header_offset,
        }
    }
}

impl FileInfoView {
    /// The description that a central directory header gives of its entry.
    pub open spec fn of(h: CentralDirectoryHeaderView) -> FileInfoView {
        FileInfoView {
            name: h.file_name,
            compression_method: CompressionMethod::of(h.compression_method),
            last_modified_datetime: h.last_modified_datetime,
            compressed_size: h.compressed_size,
            uncompressed_size: h.uncompressed_size,
            local_file_header_offset: h.relative_offset_of_local_header,
        }
    }
}

impl FileInfo {
    /// Describes the entry of the header `h`.
    pub fn from_cdh(h: &CentralDirectoryHeader) -> (f: FileInfo)
        ensures
            f@ == FileInfoView::of(h@),
    {
        FileInfo {
            name: h.file_name.clone(),
            compression_method: CompressionMethod::from_u16(h.compression_method),
            last_modified_datetime: h.last_modified_datetime,
            compressed_size: h.compressed_size,
            uncompressed_size: h.uncompressed_size,
            local_file_header_offset: h.relative_offset_of_local_header,
        }
    }
}

} // verus!
