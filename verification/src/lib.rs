//! A read-only decoder for ZIP archives held in memory: it finds the end
//! record, walks the central directory and extracts entries, checking each
//! payload against its declared size and CRC-32.
//!
//! Every record has a mathematical value (its view) with two functions over
//! byte sequences, `encode` and `decode`; the executable `write` and `read`
//! are specified by them, and a lemma beside each record says that decoding
//! undoes encoding. The reader is specified in the same way: `end_record_of`
//! says what opening an archive gives, `directory` and `lookup` what a walk
//! over the central directory gives, and `payload_at` what extraction gives.
//!
//! Stored entries and entries compressed with DEFLATE are read. Encrypted
//! entries, entries with a data descriptor, ZIP64 archives and archives in
//! several parts are refused with an error of their own.

pub mod error;
pub mod stream;
pub mod datetime;
pub mod format;
pub mod local_header;
pub mod central_header;
pub mod end_record;
pub mod crc32;
pub mod inflate;
pub mod fileinfo;
pub mod reader;
pub mod laws;

pub use crate::fileinfo::CompressionMethod;
pub use crate::fileinfo::FileInfo;
pub use crate::reader::ZipReader;
