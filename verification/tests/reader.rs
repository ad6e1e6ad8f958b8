use zip::central_header::CentralDirectoryHeader;
use zip::crc32::crc32;
use zip::datetime::MsdosDateTime;
use zip::end_record::EndOfCentralDirectoryRecord;
use zip::error::IoError;
use zip::error::ZipError;
use zip::fileinfo::CompressionMethod;
use zip::fileinfo::FileInfo;
use zip::inflate::inflate_bytes;
use zip::local_header::LocalFileHeader;
use zip::reader::bytes_eq;
use zip::reader::check_payload;
use zip::reader::locate_end_record;
use zip::reader::ZipReader;
use zip::stream::ByteReader;

/// An archive made by a common tool: `hello.txt`, stored, and
/// `dir/lorem.txt`, deflated.
fn real_archive() -> Vec<u8> {
    vec![
        0x50, 0x4b, 0x03, 0x04, 0x14, 0x00, 0x00, 0x00, 0x00, 0x00, 0xaf, 0x8d, 0x37, 0x45, 0x18,
        0xa7, 0x55, 0x7b, 0x0e, 0x00, 0x00, 0x00, 0x0e, 0x00, 0x00, 0x00, 0x09, 0x00, 0x00, 0x00,
        0x68, 0x65, 0x6c, 0x6c, 0x6f, 0x2e, 0x74, 0x78, 0x74, 0x48, 0x65, 0x6c, 0x6c, 0x6f, 0x2c,
        0x20, 0x77, 0x6f, 0x72, 0x6c, 0x64, 0x21, 0x0a, 0x50, 0x4b, 0x03, 0x04, 0x14, 0x00, 0x00,
        0x00, 0x08, 0x00, 0x7d, 0xbf, 0x5d, 0x50, 0x82, 0xa6, 0x8a, 0xe4, 0x21, 0x00, 0x00, 0x00,
        0xe0, 0x00, 0x00, 0x00, 0x0d, 0x00, 0x00, 0x00, 0x64, 0x69, 0x72, 0x2f, 0x6c, 0x6f, 0x72,
        0x65, 0x6d, 0x2e, 0x74, 0x78, 0x74, 0xcb, 0xc9, 0x2f, 0x4a, 0xcd, 0x55, 0xc8, 0x2c, 0x28,
        0x2e, 0xcd, 0x55, 0x48, 0xc9, 0xcf, 0xc9, 0x2f, 0x52, 0x28, 0xce, 0x2c, 0x51, 0x48, 0xcc,
        0x4d, 0x2d, 0xd1, 0x51, 0xc8, 0x19, 0x06, 0x72, 0x00, 0x50, 0x4b, 0x01, 0x02, 0x14, 0x03,
        0x14, 0x00, 0x00, 0x00, 0x00, 0x00, 0xaf, 0x8d, 0x37, 0x45, 0x18, 0xa7, 0x55, 0x7b, 0x0e,
        0x00, 0x00, 0x00, 0x0e, 0x00, 0x00, 0x00, 0x09, 0x00, 0x00, 0x00, 0x00, 0x00, 0x00, 0x00,
        0x00, 0x00, 0x00, 0x00, 0x80, 0x01, 0x00, 0x00, 0x00, 0x00, 0x68, 0x65, 0x6c, 0x6c, 0x6f,
        0x2e, 0x74, 0x78, 0x74, 0x50, 0x4b, 0x01, 0x02, 0x14, 0x03, 0x14, 0x00, 0x00, 0x00, 0x08,
        0x00, 0x7d, 0xbf, 0x5d, 0x50, 0x82, 0xa6, 0x8a, 0xe4, 0x21, 0x00, 0x00, 0x00, 0xe0, 0x00,
        0x00, 0x00, 0x0d, 0x00, 0x00, 0x00, 0x00, 0x00, 0x00, 0x00, 0x00, 0x00, 0x00, 0x00, 0x80,
        0x01, 0x35, 0x00, 0x00, 0x00, 0x64, 0x69, 0x72, 0x2f, 0x6c, 0x6f, 0x72, 0x65, 0x6d, 0x2e,
        0x74, 0x78, 0x74, 0x50, 0x4b, 0x05, 0x06, 0x00, 0x00, 0x00, 0x00, 0x02, 0x00, 0x02, 0x00,
        0x72, 0x00, 0x00, 0x00, 0x81, 0x00, 0x00, 0x00, 0x00, 0x00,
    ]
}

fn lorem() -> Vec<u8> {
    b"lorem ipsum dolor sit amet, ".repeat(8)
}

/// One entry of an archive under construction: its name, its method id,
/// the bytes that follow its local header, and what the headers declare.
struct Entry {
    name: String,
    method: u16,
    payload: Vec<u8>,
    uncompressed_size: u32,
    crc: u32,
}

fn stored(name: &str, content: &[u8]) -> Entry {
    Entry {
        name: name.to_string(),
        method: 0,
        payload: content.to_vec(),
        uncompressed_size: content.len() as u32,
        crc: crc32(content),
    }
}

fn deflated(name: &str, content: &[u8]) -> Entry {
    Entry {
        name: name.to_string(),
        method: 8,
        payload: miniz_oxide::deflate::compress_to_vec(content, 6),
        uncompressed_size: content.len() as u32,
        crc: crc32(content),
    }
}

/// A DEFLATE stream of one stored block, which holds `content` as it is.
fn stored_block(content: &[u8]) -> Vec<u8> {
    let n = content.len() as u16;
    let mut out = vec![0x01, n as u8, (n >> 8) as u8, !n as u8, (!n >> 8) as u8];
    out.extend_from_slice(content);
    out
}

fn build(entries: &[Entry], comment: &str) -> Vec<u8> {
    let mut out = Vec::new();
    let mut directory = Vec::new();
    for e in entries {
        let offset = out.len() as u32;
        let mut l = LocalFileHeader::new();
        l.version_needed_to_extract = 20;
        l.compression_method = e.method;
        l.last_modified_datetime = MsdosDateTime::new(2024, 5, 17, 8, 30, 0);
        l.crc32 = e.crc;
        l.compressed_size = e.payload.len() as u32;
        l.uncompressed_size = e.uncompressed_size;
        l.file_name_length = e.name.len() as u16;
        l.file_name = e.name.clone();
        l.write(&mut out).unwrap();
        out.extend_from_slice(&e.payload);
        let mut c = CentralDirectoryHeader::new();
        c.version_made_by = 20;
        c.version_needed_to_extract = 20;
        c.compression_method = e.method;
        c.last_modified_datetime = l.last_modified_datetime;
        c.crc32 = e.crc;
        c.compressed_size = l.compressed_size;
        c.uncompressed_size = l.uncompressed_size;
        c.file_name_length = l.file_name_length;
        c.file_name = e.name.clone();
        c.relative_offset_of_local_header = offset;
        c.write(&mut directory).unwrap();
    }
    let mut end = EndOfCentralDirectoryRecord::new();
    end.entry_count_this_disk = entries.len() as u16;
    end.total_entry_count = entries.len() as u16;
    end.central_directory_size = directory.len() as u32;
    end.central_directory_offset = out.len() as u32;
    end.comment_length = comment.len() as u16;
    end.comment = comment.to_string();
    out.extend_from_slice(&directory);
    end.write(&mut out).unwrap();
    out
}

fn open(bytes: Vec<u8>) -> ZipReader {
    ZipReader::new(ByteReader::new(bytes)).unwrap()
}

fn open_error(bytes: Vec<u8>) -> ZipError {
    match ZipReader::new(ByteReader::new(bytes)) {
        Ok(_) => panic!("the archive was opened"),
        Err(e) => e,
    }
}

#[test]
fn end_record_of_a_single_entry_archive_is_22_bytes_before_the_end() {
    let bytes = build(&[stored("only.txt", b"just one")], "");
    let size = bytes.len() as u64;
    assert_eq!(locate_end_record(&ByteReader::new(bytes)), Ok(size - 22));
}

#[test]
fn end_record_of_a_real_archive_is_found() {
    assert_eq!(locate_end_record(&ByteReader::new(real_archive())), Ok(243));
}

#[test]
fn end_record_is_found_before_its_comment() {
    let bytes = build(&[stored("a", b"1")], "a comment of some length");
    let size = bytes.len() as u64;
    assert_eq!(locate_end_record(&ByteReader::new(bytes)), Ok(size - 22 - 24));
}

#[test]
fn short_stream_without_signature_is_not_a_zip_file() {
    for len in 0..22usize {
        let bytes: Vec<u8> = (0..len).map(|i| i as u8).collect();
        assert_eq!(locate_end_record(&ByteReader::new(bytes.clone())), Err(ZipError::NotAZipFile));
        assert_eq!(open_error(bytes), ZipError::NotAZipFile);
    }
}

#[test]
fn long_stream_without_signature_is_not_a_zip_file() {
    let bytes = b"PK\x03\x04 this is no archive: PK\x05\x05, PK\x01\x02, PK\x06\x05".to_vec();
    assert_eq!(locate_end_record(&ByteReader::new(bytes.clone())), Err(ZipError::NotAZipFile));
    assert_eq!(open_error(bytes), ZipError::NotAZipFile);
}

#[test]
fn signature_nearest_to_the_end_wins() {
    let mut bytes = vec![0u8; 40];
    bytes[3..7].copy_from_slice(b"PK\x05\x06");
    bytes[20..24].copy_from_slice(b"PK\x05\x06");
    assert_eq!(locate_end_record(&ByteReader::new(bytes.clone())), Ok(20));
    bytes[36..40].copy_from_slice(b"PK\x05\x06");
    assert_eq!(locate_end_record(&ByteReader::new(bytes.clone())), Ok(36));
    bytes[0..4].copy_from_slice(b"PK\x05\x06");
    bytes[36] = 0;
    bytes[20] = 0;
    assert_eq!(locate_end_record(&ByteReader::new(bytes)), Ok(0));
}

#[test]
fn signature_inside_the_comment_misleads_the_search() {
    let bytes = build(&[stored("a", b"1")], "see PK\x05\x06 here");
    let size = bytes.len() as u64;
    assert_eq!(locate_end_record(&ByteReader::new(bytes.clone())), Ok(size - 9));
    assert_eq!(open_error(bytes), ZipError::SomeIoError(IoError::EndOfFile));
}

#[test]
fn offset_field_that_spells_the_signature_misleads_the_search() {
    let mut end = EndOfCentralDirectoryRecord::new();
    end.central_directory_offset = 0x06054b50;
    let mut bytes = vec![0u8; 10];
    end.write(&mut bytes).unwrap();
    assert_eq!(bytes.len(), 32);
    assert_eq!(locate_end_record(&ByteReader::new(bytes.clone())), Ok(10 + 16));
    assert_eq!(open_error(bytes), ZipError::SomeIoError(IoError::EndOfFile));
}

#[test]
fn truncated_end_record_does_not_open() {
    let mut bytes = build(&[stored("a", b"1")], "");
    bytes.truncate(bytes.len() - 1);
    assert_eq!(open_error(bytes), ZipError::SomeIoError(IoError::EndOfFile));
}

#[test]
fn end_record_with_bad_comment_does_not_open() {
    let mut bytes = build(&[stored("a", b"1")], "xyz");
    let last = bytes.len() - 1;
    bytes[last] = 0xff;
    assert_eq!(open_error(bytes), ZipError::NonUTF8Field);
}

#[test]
fn archive_in_several_parts_is_refused() {
    let whole = build(&[stored("a", b"1")], "");
    let at = whole.len() - 22;
    let mut bytes = whole.clone();
    bytes[at + 4] = 1;
    assert_eq!(open_error(bytes), ZipError::MultiDiskArchive);
    let mut bytes = whole.clone();
    bytes[at + 6] = 1;
    assert_eq!(open_error(bytes), ZipError::MultiDiskArchive);
    let mut bytes = whole.clone();
    bytes[at + 10] = 2;
    assert_eq!(open_error(bytes), ZipError::MultiDiskArchive);
    assert!(ZipReader::new(ByteReader::new(whole)).is_ok());
}

#[test]
fn zip64_archive_is_refused() {
    let whole = build(&[stored("a", b"1")], "");
    let at = whole.len() - 22;
    for field in [4usize, 6, 8, 10] {
        let mut bytes = whole.clone();
        bytes[at + field] = 0xff;
        bytes[at + field + 1] = 0xff;
        assert_eq!(open_error(bytes), ZipError::Zip64Archive);
    }
    for field in [12usize, 16] {
        let mut bytes = whole.clone();
        bytes[at + field..at + field + 4].copy_from_slice(&[0xff; 4]);
        assert_eq!(open_error(bytes), ZipError::Zip64Archive);
    }
}

#[test]
fn three_entries_are_yielded_then_the_walk_ends() {
    let mut zip = open(build(
        &[stored("one", b"1"), deflated("two", b"22"), stored("three", b"333")],
        "",
    ));
    let mut files = zip.files_raw();
    assert_eq!(files.next().unwrap().unwrap().name, "one");
    assert_eq!(files.next().unwrap().unwrap().name, "two");
    assert_eq!(files.next().unwrap().unwrap().name, "three");
    assert_eq!(files.next(), None);
    assert_eq!(files.next(), None);
    assert_eq!(files.current_entry, 3);
}

#[test]
fn entries_come_in_the_order_of_the_central_directory() {
    let mut zip = open(build(
        &[stored("zebra", b"z"), stored("apple", b"a"), stored("mango", b"m")],
        "fruit and beast",
    ));
    assert_eq!(
        zip.file_names(),
        Ok(vec!["zebra".to_string(), "apple".to_string(), "mango".to_string()])
    );
    let infos = zip.files().unwrap();
    assert_eq!(infos.len(), 3);
    assert_eq!(infos[0].local_file_header_offset, 0);
    assert_eq!(infos[1].local_file_header_offset, 30 + 5 + 1);
    assert_eq!(infos[2].local_file_header_offset, 2 * (30 + 5 + 1));
    assert_eq!(zip.files().unwrap(), infos);
}

#[test]
fn empty_archive_has_no_entries() {
    let mut zip = open(build(&[], ""));
    assert_eq!(zip.files(), Ok(vec![]));
    assert_eq!(zip.file_names(), Ok(vec![]));
    assert_eq!(zip.files_raw().next(), None);
    assert_eq!(zip.info(b"any"), Err(ZipError::FileNotFoundInArchive));
}

#[test]
fn real_archive_lists_its_entries() {
    let mut zip = open(real_archive());
    assert_eq!(
        zip.files(),
        Ok(vec![
            FileInfo {
                name: "hello.txt".to_string(),
                compression_method: CompressionMethod::Store,
                last_modified_datetime: MsdosDateTime::new(2014, 9, 23, 17, 45, 30),
                compressed_size: 14,
                uncompressed_size: 14,
                local_file_header_offset: 0,
            },
            FileInfo {
                name: "dir/lorem.txt".to_string(),
                compression_method: CompressionMethod::Deflate,
                last_modified_datetime: MsdosDateTime::new(2020, 2, 29, 23, 59, 58),
                compressed_size: 33,
                uncompressed_size: 224,
                local_file_header_offset: 53,
            },
        ])
    );
}

#[test]
fn real_archive_gives_its_contents() {
    let mut zip = open(real_archive());
    let hello = zip.info(b"hello.txt").unwrap();
    assert_eq!(zip.read(&hello), Ok(b"Hello, world!\n".to_vec()));
    let lorem_info = zip.info(b"dir/lorem.txt").unwrap();
    assert_eq!(zip.read(&lorem_info), Ok(lorem()));
    assert_eq!(zip.read(&hello), Ok(b"Hello, world!\n".to_vec()));
}

#[test]
fn broken_header_ends_the_walk_with_its_error() {
    let mut bytes = build(&[stored("one", b"1"), stored("two", b"2"), stored("three", b"3")], "");
    let second = 34 + 34 + 36 + 49;
    assert_eq!(&bytes[second..second + 4], b"PK\x01\x02");
    bytes[second + 3] = 0x07;
    let mut zip = open(bytes);
    {
        let mut files = zip.files_raw();
        assert_eq!(files.next().unwrap().unwrap().name, "one");
        assert_eq!(files.next(), Some(Err(ZipError::InvalidSignature(0x07014b50))));
        assert_eq!(files.next(), None);
        assert_eq!(files.next(), None);
    }
    assert_eq!(zip.files(), Err(ZipError::InvalidSignature(0x07014b50)));
    assert_eq!(zip.file_names(), Err(ZipError::InvalidSignature(0x07014b50)));
    assert_eq!(zip.info(b"one").unwrap().name, "one");
    assert_eq!(zip.info(b"two"), Err(ZipError::InvalidSignature(0x07014b50)));
    assert_eq!(zip.info(b"three"), Err(ZipError::InvalidSignature(0x07014b50)));
}

#[test]
fn central_directory_beyond_the_end_is_an_end_of_file() {
    let mut bytes = build(&[stored("one", b"1")], "");
    let at = bytes.len() - 22;
    bytes[at + 16..at + 20].copy_from_slice(&[0xf0, 0xff, 0xff, 0x7f]);
    let mut zip = open(bytes);
    assert_eq!(zip.files(), Err(ZipError::SomeIoError(IoError::EndOfFile)));
    assert_eq!(zip.files_raw().next(), Some(Err(ZipError::SomeIoError(IoError::EndOfFile))));
}

#[test]
fn name_that_is_absent_is_not_found() {
    let mut zip = open(build(&[stored("one", b"1"), stored("two", b"2")], ""));
    assert_eq!(zip.info(b"three"), Err(ZipError::FileNotFoundInArchive));
    assert_eq!(zip.info(b"on"), Err(ZipError::FileNotFoundInArchive));
    assert_eq!(zip.info(b"one "), Err(ZipError::FileNotFoundInArchive));
    assert_eq!(zip.info(b"ONE"), Err(ZipError::FileNotFoundInArchive));
    assert_eq!(zip.info(b""), Err(ZipError::FileNotFoundInArchive));
}

#[test]
fn of_two_entries_with_one_name_the_first_is_found() {
    let mut zip = open(build(
        &[stored("other", b"0"), stored("same", b"first"), stored("same", b"second one")],
        "",
    ));
    let info = zip.info(b"same").unwrap();
    assert_eq!(info.uncompressed_size, 5);
    assert_eq!(info.local_file_header_offset, 30 + 5 + 1);
    assert_eq!(zip.read(&info), Ok(b"first".to_vec()));
    let all = zip.files().unwrap();
    assert_eq!(all[1], info);
    assert_eq!(all[2].name, "same");
    assert_eq!(zip.read(&all[2]), Ok(b"second one".to_vec()));
}

#[test]
fn names_are_compared_byte_for_byte() {
    let mut zip = open(build(&[stored("caf\u{e9}", b"1")], ""));
    assert_eq!(zip.info("caf\u{e9}".as_bytes()).unwrap().name, "caf\u{e9}");
    assert_eq!(zip.info(b"cafe\xcc\x81"), Err(ZipError::FileNotFoundInArchive));
    assert_eq!(zip.info(b"caf\xe9"), Err(ZipError::FileNotFoundInArchive));
}

#[test]
fn stored_entry_comes_back_byte_for_byte() {
    let content: Vec<u8> = (0..=255u8).chain(0..=255u8).collect();
    let mut zip = open(build(&[stored("bytes.bin", &content)], ""));
    let info = zip.info(b"bytes.bin").unwrap();
    assert_eq!(info.compression_method, CompressionMethod::Store);
    let out = zip.read(&info).unwrap();
    assert_eq!(out, content);
    assert_eq!(crc32(&out), crc32(&content));
}

#[test]
fn empty_stored_entry_is_extracted() {
    let mut zip = open(build(&[stored("empty", b"")], ""));
    let info = zip.info(b"empty").unwrap();
    assert_eq!(zip.read(&info), Ok(vec![]));
}

#[test]
fn deflated_entry_is_inflated() {
    let content = lorem();
    let entry = deflated("lorem", &content);
    assert!(entry.payload.len() < content.len());
    let mut zip = open(build(&[stored("first", b"1"), entry], ""));
    let info = zip.info(b"lorem").unwrap();
    assert_eq!(info.compression_method, CompressionMethod::Deflate);
    assert_eq!(info.uncompressed_size, 224);
    assert_eq!(zip.read(&info), Ok(content));
}

#[test]
fn tampered_deflated_entry_is_a_crc_error() {
    let content = b"the quick brown fox jumps over the lazy dog".to_vec();
    let mut entry = stored("fox", &content);
    entry.method = 8;
    entry.payload = stored_block(&content);
    let good = build(&[entry], "");
    let mut zip = open(good.clone());
    let info = zip.info(b"fox").unwrap();
    assert_eq!(zip.read(&info), Ok(content));
    let mut bad = good;
    bad[30 + 3 + 5 + 10] ^= 0x04;
    let mut zip = open(bad);
    assert_eq!(zip.read(&info), Err(ZipError::CrcError));
}

#[test]
fn tampered_stored_entry_is_a_crc_error() {
    let mut bytes = build(&[stored("a.txt", b"some content")], "");
    bytes[30 + 5 + 4] ^= 0x01;
    let mut zip = open(bytes);
    let info = zip.info(b"a.txt").unwrap();
    assert_eq!(zip.read(&info), Err(ZipError::CrcError));
}

#[test]
fn deflated_entry_that_does_not_inflate_is_a_decompression_failure() {
    let mut entry = stored("junk", b"0123456789");
    entry.method = 8;
    entry.payload = vec![0xff; 10];
    let mut zip = open(build(&[entry], ""));
    let info = zip.info(b"junk").unwrap();
    assert_eq!(zip.read(&info), Err(ZipError::SomeIoError(IoError::DecompressionFailure)));
}

#[test]
fn deflated_entry_of_another_size_is_a_size_mismatch() {
    let content = lorem();
    let mut entry = deflated("lorem", &content);
    entry.uncompressed_size = 223;
    let mut zip = open(build(&[entry], ""));
    let info = zip.info(b"lorem").unwrap();
    assert_eq!(zip.read(&info), Err(ZipError::SomeIoError(IoError::SizeMismatch)));
}

#[test]
fn entry_with_another_method_is_refused() {
    for method in [1u16, 9, 12, 14, 98] {
        let mut entry = stored("odd", b"content");
        entry.method = method;
        let mut zip = open(build(&[entry], ""));
        let info = zip.info(b"odd").unwrap();
        assert_eq!(info.compression_method, CompressionMethod::Unknown);
        assert_eq!(zip.read(&info), Err(ZipError::UnsupportedMethod(method)));
    }
}

#[test]
fn entry_with_zip64_sizes_is_refused() {
    let mut entry = stored("big", b"content");
    entry.uncompressed_size = 0xffff_ffff;
    let mut zip = open(build(&[entry], ""));
    let info = zip.info(b"big").unwrap();
    assert_eq!(zip.read(&info), Err(ZipError::Zip64Archive));
}

#[test]
fn entry_cut_short_is_an_end_of_file() {
    let mut entry = stored("long", b"content");
    entry.uncompressed_size = 0x1000;
    let mut zip = open(build(&[entry], ""));
    let info = zip.info(b"long").unwrap();
    assert_eq!(zip.read(&info), Err(ZipError::SomeIoError(IoError::EndOfFile)));
}

#[test]
fn local_header_is_trusted_over_the_central_directory() {
    let mut zip = open(build(&[stored("a", b"first"), stored("b", b"second")], ""));
    let mut info = zip.info(b"a").unwrap();
    info.uncompressed_size = 1;
    info.compressed_size = 1;
    info.compression_method = CompressionMethod::Deflate;
    info.name = "renamed".to_string();
    assert_eq!(zip.read(&info), Ok(b"first".to_vec()));
    info.local_file_header_offset = 30 + 1 + 5;
    assert_eq!(zip.read(&info), Ok(b"second".to_vec()));
}

#[test]
fn offset_that_is_no_local_header_is_refused() {
    let mut zip = open(build(&[stored("a", b"first")], ""));
    let mut info = zip.info(b"a").unwrap();
    info.local_file_header_offset = 36;
    assert_eq!(zip.read(&info), Err(ZipError::InvalidSignature(0x02014b50)));
    info.local_file_header_offset = 1;
    assert_eq!(zip.read(&info), Err(ZipError::InvalidSignature(0x1404034b)));
    info.local_file_header_offset = 0xffff_fff0;
    assert_eq!(zip.read(&info), Err(ZipError::SomeIoError(IoError::EndOfFile)));
}

#[test]
fn local_header_with_unsupported_flag_stops_extraction() {
    let mut bytes = build(&[stored("a", b"first")], "");
    bytes[6] = 0x08;
    let mut zip = open(bytes);
    let info = zip.info(b"a").unwrap();
    assert_eq!(zip.read(&info), Err(ZipError::UnsupportedFlags(8)));
}

#[test]
fn extract_appends_the_contents() {
    let mut zip = open(real_archive());
    let info = zip.info(b"hello.txt").unwrap();
    let mut sink = b">> ".to_vec();
    assert_eq!(zip.extract(&info, &mut sink), Ok(()));
    assert_eq!(sink, b">> Hello, world!\n".to_vec());
    let info = zip.info(b"dir/lorem.txt").unwrap();
    assert_eq!(zip.extract(&info, &mut sink), Ok(()));
    assert_eq!(sink.len(), 17 + 224);
    assert_eq!(&sink[17..], &lorem()[..]);
}

#[test]
fn extract_appends_nothing_on_failure() {
    let mut bytes = real_archive();
    bytes[40] ^= 0x20;
    let mut zip = open(bytes);
    let info = zip.info(b"hello.txt").unwrap();
    let mut sink = vec![1, 2, 3];
    assert_eq!(zip.extract(&info, &mut sink), Err(ZipError::CrcError));
    assert_eq!(sink, vec![1, 2, 3]);
}

#[test]
fn payload_is_checked_for_size_then_crc() {
    let content = b"Hello, world!\n".to_vec();
    assert_eq!(check_payload(Some(content.clone()), 14, 0x7b55a718), Ok(content.clone()));
    assert_eq!(check_payload(Some(content.clone()), 14, 0x7b55a719), Err(ZipError::CrcError));
    assert_eq!(
        check_payload(Some(content.clone()), 13, 0x7b55a718),
        Err(ZipError::SomeIoError(IoError::SizeMismatch))
    );
    assert_eq!(
        check_payload(Some(content.clone()), 15, 0),
        Err(ZipError::SomeIoError(IoError::SizeMismatch))
    );
    assert_eq!(
        check_payload(None, 14, 0x7b55a718),
        Err(ZipError::SomeIoError(IoError::DecompressionFailure))
    );
    assert_eq!(check_payload(Some(vec![]), 0, 0), Ok(vec![]));
}

#[test]
fn inflate_gives_the_bytes_that_were_deflated() {
    assert_eq!(inflate_bytes(&stored_block(b"plain")), Some(b"plain".to_vec()));
    assert_eq!(inflate_bytes(&[0x4b, 0x4c, 0x04, 0x01, 0x00]), Some(b"aaaaaa".to_vec()));
    let content = lorem();
    let compressed = miniz_oxide::deflate::compress_to_vec(&content, 9);
    assert_ne!(compressed, content);
    assert_eq!(inflate_bytes(&compressed), Some(content));
    assert_eq!(inflate_bytes(&[0x03, 0x00]), Some(vec![]));
}

#[test]
fn inflate_refuses_what_is_no_deflate_stream() {
    assert_eq!(inflate_bytes(&[]), None);
    assert_eq!(inflate_bytes(&[0xff; 10]), None);
    assert_eq!(inflate_bytes(&[0x01, 0x05, 0x00, 0xfa, 0xfe, 1, 2, 3, 4, 5]), None);
    let content = lorem();
    let mut compressed = miniz_oxide::deflate::compress_to_vec(&content, 6);
    compressed.truncate(compressed.len() - 3);
    assert_eq!(inflate_bytes(&compressed), None);
}

#[test]
fn byte_strings_are_equal_when_every_byte_is() {
    assert!(bytes_eq(b"", b""));
    assert!(bytes_eq(b"abc", b"abc"));
    assert!(!bytes_eq(b"abc", b"abd"));
    assert!(!bytes_eq(b"abc", b"ab"));
    assert!(!bytes_eq(b"", b"a"));
    assert!(!bytes_eq(b"xbc", b"abc"));
}
