use zip::error::IoError;
use zip::stream::get_le_u16;
use zip::stream::get_le_u32;
use zip::stream::write_bytes;
use zip::stream::write_le_u16;
use zip::stream::write_le_u32;
use zip::stream::ByteReader;

#[test]
fn integers_are_read_low_byte_first() {
    let data = [0x50, 0x4b, 0x03, 0x04, 0xff];
    assert_eq!(get_le_u16(&data, 0), 0x4b50);
    assert_eq!(get_le_u16(&data, 3), 0xff04);
    assert_eq!(get_le_u32(&data, 0), 0x04034b50);
    assert_eq!(get_le_u32(&data, 1), 0xff04034b);
}

#[test]
fn integers_are_written_low_byte_first() {
    let mut w = vec![9];
    write_le_u16(&mut w, 0x1234);
    write_le_u32(&mut w, 0x06054b50);
    write_bytes(&mut w, &[1, 2, 3]);
    assert_eq!(w, vec![9, 0x34, 0x12, 0x50, 0x4b, 0x05, 0x06, 1, 2, 3]);
}

#[test]
fn written_integers_read_back() {
    for v in [0u32, 1, 0xff, 0x100, 0xffff, 0x10000, 0x06054b50, 0xffff_ffff] {
        let mut w = Vec::new();
        write_le_u32(&mut w, v);
        assert_eq!(w.len(), 4);
        assert_eq!(get_le_u32(&w, 0), v);
    }
    for v in [0u16, 1, 0xff, 0x100, 0x4b50, 0xffff] {
        let mut w = Vec::new();
        write_le_u16(&mut w, v);
        assert_eq!(w.len(), 2);
        assert_eq!(get_le_u16(&w, 0), v);
    }
}

#[test]
fn reader_moves_past_what_it_reads() {
    let mut r = ByteReader::new(vec![1, 2, 3, 4, 5, 6, 7, 8, 9]);
    assert_eq!(r.len(), 9);
    assert_eq!(r.tell(), 0);
    assert_eq!(r.read_le_u16(), Ok(0x0201));
    assert_eq!(r.tell(), 2);
    assert_eq!(r.read_le_u32(), Ok(0x06050403));
    assert_eq!(r.tell(), 6);
    assert_eq!(r.read_exact(3), Ok(vec![7, 8, 9]));
    assert_eq!(r.tell(), 9);
    assert_eq!(r.read_exact(0), Ok(vec![]));
    assert_eq!(r.as_slice(), &[1, 2, 3, 4, 5, 6, 7, 8, 9]);
}

#[test]
fn reader_reports_the_end_and_stays() {
    let mut r = ByteReader::new(vec![1, 2, 3]);
    assert_eq!(r.read_le_u32(), Err(IoError::EndOfFile));
    assert_eq!(r.tell(), 0);
    r.seek(2);
    assert_eq!(r.read_le_u16(), Err(IoError::EndOfFile));
    assert_eq!(r.tell(), 2);
    assert_eq!(r.read_exact(2), Err(IoError::EndOfFile));
    assert_eq!(r.tell(), 2);
    assert_eq!(r.read_exact(1), Ok(vec![3]));
}

#[test]
fn reader_may_seek_beyond_the_end() {
    let mut r = ByteReader::new(vec![1, 2, 3]);
    r.seek(u64::MAX);
    assert_eq!(r.tell(), u64::MAX);
    assert_eq!(r.read_le_u16(), Err(IoError::EndOfFile));
    assert_eq!(r.read_le_u32(), Err(IoError::EndOfFile));
    assert_eq!(r.read_exact(1), Err(IoError::EndOfFile));
    assert_eq!(r.read_exact(0), Err(IoError::EndOfFile));
    r.seek(3);
    assert_eq!(r.read_exact(0), Ok(vec![]));
    r.seek(1);
    assert_eq!(r.read_le_u16(), Ok(0x0302));
}
