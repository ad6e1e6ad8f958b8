use zip::central_header::CentralDirectoryHeader;
use zip::datetime::MsdosDateTime;
use zip::error::IoError;
use zip::error::ZipError;
use zip::fileinfo::CompressionMethod;
use zip::fileinfo::FileInfo;
use zip::stream::ByteReader;

fn sample() -> CentralDirectoryHeader {
    CentralDirectoryHeader {
        version_made_by: 0x0314,
        version_needed_to_extract: 20,
        general_purpose_bit_flag: 0,
        compression_method: 8,
        last_modified_datetime: MsdosDateTime::new(2020, 2, 29, 23, 59, 58),
        crc32: 0xe48aa682,
        compressed_size: 33,
        uncompressed_size: 224,
        file_name_length: 13,
        extra_field_length: 0,
        file_comment_length: 0,
        disk_number_start: 0,
        internal_file_attributes: 0,
        external_file_attributes: 0x01800000,
        relative_offset_of_local_header: 53,
        file_name: "dir/lorem.txt".to_string(),
        extra_field: Vec::new(),
        file_comment: String::new(),
    }
}

fn sample_bytes() -> Vec<u8> {
    vec![
        0x50, 0x4b, 0x01, 0x02, 0x14, 0x03, 0x14, 0x00, 0x00, 0x00, 0x08, 0x00, 0x7d, 0xbf, 0x5d,
        0x50, 0x82, 0xa6, 0x8a, 0xe4, 0x21, 0x00, 0x00, 0x00, 0xe0, 0x00, 0x00, 0x00, 0x0d, 0x00,
        0x00, 0x00, 0x00, 0x00, 0x00, 0x00, 0x00, 0x00, 0x00, 0x00, 0x80, 0x01, 0x35, 0x00, 0x00,
        0x00, 0x64, 0x69, 0x72, 0x2f, 0x6c, 0x6f, 0x72, 0x65, 0x6d, 0x2e, 0x74, 0x78, 0x74,
    ]
}

fn encoded(h: &CentralDirectoryHeader) -> Vec<u8> {
    let mut w = Vec::new();
    assert_eq!(h.write(&mut w), Ok(()));
    w
}

#[test]
fn central_header_new_is_all_zero() {
    let h = CentralDirectoryHeader::new();
    assert_eq!(h.version_made_by, 0);
    assert_eq!(h.version_needed_to_extract, 0);
    assert_eq!(h.general_purpose_bit_flag, 0);
    assert_eq!(h.compression_method, 0);
    assert_eq!(h.last_modified_datetime, MsdosDateTime::zero());
    assert_eq!(h.crc32, 0);
    assert_eq!(h.compressed_size, 0);
    assert_eq!(h.uncompressed_size, 0);
    assert_eq!(h.file_name_length, 0);
    assert_eq!(h.extra_field_length, 0);
    assert_eq!(h.file_comment_length, 0);
    assert_eq!(h.disk_number_start, 0);
    assert_eq!(h.internal_file_attributes, 0);
    assert_eq!(h.external_file_attributes, 0);
    assert_eq!(h.relative_offset_of_local_header, 0);
    assert_eq!(h.file_name, "");
    assert!(h.extra_field.is_empty());
    assert_eq!(h.file_comment, "");
    assert_eq!(h.total_size(), 46);
}

#[test]
fn central_header_encodes_to_the_documented_layout() {
    assert_eq!(encoded(&sample()), sample_bytes());
}

#[test]
fn central_header_decodes_from_the_documented_layout() {
    let mut r = ByteReader::new(sample_bytes());
    assert_eq!(CentralDirectoryHeader::read(&mut r), Ok(sample()));
    assert_eq!(r.tell(), 59);
}

#[test]
fn central_header_round_trips_with_all_fields_set() {
    let h = CentralDirectoryHeader {
        version_made_by: 0x1234,
        version_needed_to_extract: 0x2345,
        general_purpose_bit_flag: 0xffff,
        compression_method: 0x4567,
        last_modified_datetime: MsdosDateTime::new(2031, 12, 9, 10, 51, 48),
        crc32: 0x789abcde,
        compressed_size: 0x89abcdef,
        uncompressed_size: 0x9abcdef0,
        file_name_length: 5,
        extra_field_length: 3,
        file_comment_length: 8,
        disk_number_start: 0xabcd,
        internal_file_attributes: 0xbcde,
        external_file_attributes: 0xcdef0123,
        relative_offset_of_local_header: 0xdef01234,
        file_name: "n\u{e4}me".to_string(),
        extra_field: vec![0xff, 0x00, 0x80],
        file_comment: "a comm\u{e9}".to_string(),
    };
    let mut bytes = vec![0x11; 7];
    assert_eq!(h.write(&mut bytes), Ok(()));
    assert_eq!(bytes.len(), 7 + h.total_size());
    bytes.push(0x99);
    let mut r = ByteReader::new(bytes);
    r.seek(7);
    assert_eq!(CentralDirectoryHeader::read(&mut r), Ok(h.clone()));
    assert_eq!(r.tell(), 7 + 46 + 5 + 3 + 8);
}

#[test]
fn central_header_total_size_counts_name_extra_field_and_comment() {
    let mut h = sample();
    assert_eq!(h.total_size(), 46 + 13);
    h.extra_field_length = 0xffff;
    h.file_comment_length = 0xffff;
    h.file_name_length = 0xffff;
    assert_eq!(h.total_size(), 46 + 3 * 0xffff);
}

#[test]
fn central_header_with_wrong_signature_is_refused_with_the_value_found() {
    let mut bytes = sample_bytes();
    bytes[2] = 0x03;
    bytes[3] = 0x04;
    let mut r = ByteReader::new(bytes);
    r.seek(0);
    assert_eq!(CentralDirectoryHeader::read(&mut r), Err(ZipError::InvalidSignature(0x04034b50)));
    assert_eq!(r.tell(), 0);
}

#[test]
fn central_header_cut_short_is_an_end_of_file() {
    let mut h = sample();
    h.extra_field = vec![1, 2];
    h.extra_field_length = 2;
    h.file_comment = "hi".to_string();
    h.file_comment_length = 2;
    let whole = encoded(&h);
    for cut in 0..whole.len() {
        let mut r = ByteReader::new(whole[..cut].to_vec());
        assert_eq!(
            CentralDirectoryHeader::read(&mut r),
            Err(ZipError::SomeIoError(IoError::EndOfFile)),
            "cut at {}",
            cut
        );
        assert_eq!(r.tell(), 0);
    }
    let mut r = ByteReader::new(whole);
    assert_eq!(CentralDirectoryHeader::read(&mut r), Ok(h));
}

#[test]
fn central_header_name_and_comment_must_be_utf8() {
    let mut h = sample();
    h.file_comment = "ok".to_string();
    h.file_comment_length = 2;
    let good = encoded(&h);
    let mut bad_name = good.clone();
    bad_name[46] = 0xc0;
    let mut r = ByteReader::new(bad_name);
    assert_eq!(CentralDirectoryHeader::read(&mut r), Err(ZipError::NonUTF8Field));
    let mut bad_comment = good.clone();
    bad_comment[46 + 13] = 0x80;
    let mut r = ByteReader::new(bad_comment);
    assert_eq!(CentralDirectoryHeader::read(&mut r), Err(ZipError::NonUTF8Field));
    assert_eq!(r.tell(), 0);
}

#[test]
fn central_header_accepts_flags_that_a_local_header_may_not_have() {
    let mut h = sample();
    h.general_purpose_bit_flag = 1 | 8 | 32 | 64 | 8192;
    let mut r = ByteReader::new(encoded(&h));
    let back = CentralDirectoryHeader::read(&mut r).unwrap();
    assert!(back.is_encrypted());
    assert!(back.has_data_descriptor());
    assert!(back.is_compressed_patched_data());
    assert!(back.uses_strong_encryption());
    assert!(!back.has_UTF8_name());
    assert!(back.uses_masking());
}

#[test]
fn central_header_flags_have_their_bits() {
    let mut h = sample();
    assert!(!h.is_encrypted() && !h.has_data_descriptor() && !h.is_compressed_patched_data());
    assert!(!h.uses_strong_encryption() && !h.has_UTF8_name() && !h.uses_masking());
    h.general_purpose_bit_flag = 2048;
    assert!(h.has_UTF8_name());
    assert!(!h.is_encrypted() && !h.has_data_descriptor() && !h.is_compressed_patched_data());
    h.general_purpose_bit_flag = 1;
    assert!(h.is_encrypted() && !h.has_UTF8_name());
    h.general_purpose_bit_flag = 8;
    assert!(h.has_data_descriptor() && !h.is_encrypted());
    h.general_purpose_bit_flag = 32;
    assert!(h.is_compressed_patched_data());
    h.general_purpose_bit_flag = 64;
    assert!(h.uses_strong_encryption());
    h.general_purpose_bit_flag = 8192;
    assert!(h.uses_masking());
}

#[test]
fn central_header_with_too_long_field_is_not_written() {
    let mut w = vec![5];
    let mut h = sample();
    h.file_name = "n".repeat(0x10000);
    assert_eq!(h.write(&mut w), Err(ZipError::TooLongField));
    let mut h = sample();
    h.extra_field = vec![0; 0x10000];
    assert_eq!(h.write(&mut w), Err(ZipError::TooLongField));
    let mut h = sample();
    h.file_comment = "c".repeat(0x10000);
    assert_eq!(h.write(&mut w), Err(ZipError::TooLongField));
    assert_eq!(w, vec![5]);
}

#[test]
fn file_info_is_the_projection_of_a_central_header() {
    let info = FileInfo::from_cdh(&sample());
    assert_eq!(
        info,
        FileInfo {
            name: "dir/lorem.txt".to_string(),
            compression_method: CompressionMethod::Deflate,
            last_modified_datetime: MsdosDateTime::new(2020, 2, 29, 23, 59, 58),
            compressed_size: 33,
            uncompressed_size: 224,
            local_file_header_offset: 53,
        }
    );
}

#[test]
fn compression_method_knows_store_and_deflate_only() {
    assert_eq!(CompressionMethod::from_u16(0), CompressionMethod::Store);
    assert_eq!(CompressionMethod::from_u16(8), CompressionMethod::Deflate);
    for id in [1u16, 2, 7, 9, 12, 14, 93, 99, 0xffff] {
        assert_eq!(CompressionMethod::from_u16(id), CompressionMethod::Unknown);
    }
}
