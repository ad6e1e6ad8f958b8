use zip::datetime::MsdosDateTime;
use zip::error::IoError;
use zip::stream::ByteReader;

#[test]
fn packs_and_unpacks_a_date() {
    let d = MsdosDateTime::new(2014, 9, 23, 17, 45, 30);
    assert_eq!(d.to_tuple(), (2014, 9, 23, 17, 45, 30));
    assert_eq!(d.year(), 2014);
    assert_eq!(d.month(), 9);
    assert_eq!(d.day(), 23);
    assert_eq!(d.hour(), 17);
    assert_eq!(d.minute(), 45);
    assert_eq!(d.second(), 30);
}

fn words(d: &MsdosDateTime) -> (u16, u16) {
    let mut w = Vec::new();
    d.write(&mut w);
    assert_eq!(w.len(), 4);
    (u16::from_le_bytes([w[0], w[1]]), u16::from_le_bytes([w[2], w[3]]))
}

#[test]
fn packed_words_have_the_documented_layout() {
    let d = MsdosDateTime::new(2014, 9, 23, 17, 45, 30);
    assert_eq!(words(&d), ((17 << 11) | (45 << 5) | 15, (34 << 9) | (9 << 5) | 23));
    assert_eq!(words(&d), (0x8daf, 0x4537));
}

#[test]
fn odd_second_loses_its_last_bit() {
    for second in 0..60usize {
        let d = MsdosDateTime::new(2000, 1, 1, 0, 0, second);
        assert_eq!(d.second(), second & !1);
    }
}

#[test]
fn every_component_that_fits_comes_back() {
    let d = MsdosDateTime::new(1980, 0, 0, 0, 0, 0);
    assert_eq!(d.to_tuple(), (1980, 0, 0, 0, 0, 0));
    let d = MsdosDateTime::new(2107, 15, 31, 31, 63, 62);
    assert_eq!(d.to_tuple(), (2107, 15, 31, 31, 63, 62));
    assert_eq!(words(&d), (0xffff, 0xffff));
}

#[test]
fn component_that_does_not_fit_loses_its_high_bits() {
    let d = MsdosDateTime::new(2108, 16, 32, 32, 64, 64);
    assert_eq!(d.to_tuple(), (1980, 0, 0, 0, 0, 0));
    let d = MsdosDateTime::new(1979, 17, 33, 33, 65, 67);
    assert_eq!(d.to_tuple(), (2107, 1, 1, 1, 1, 2));
    let d = MsdosDateTime::new(0, 1, 1, 0, 0, 0);
    assert_eq!(d.year(), 1980 + (128 - 1980 % 128) % 128);
}

#[test]
fn zero_is_the_first_moment_of_1980() {
    let d = MsdosDateTime::zero();
    assert_eq!(words(&d), (0, 0));
    assert_eq!(d.to_tuple(), (1980, 0, 0, 0, 0, 0));
    assert_eq!(d, MsdosDateTime::new(1980, 0, 0, 0, 0, 0));
}

#[test]
fn written_words_are_little_endian_time_then_date() {
    let d = MsdosDateTime::new(2014, 9, 23, 17, 45, 30);
    let mut w = vec![0xaa];
    d.write(&mut w);
    assert_eq!(w, vec![0xaa, 0xaf, 0x8d, 0x37, 0x45]);
}

#[test]
fn read_gives_back_what_write_wrote() {
    let d = MsdosDateTime::new(2020, 2, 29, 23, 59, 58);
    let mut w = Vec::new();
    d.write(&mut w);
    w.push(0x77);
    let mut r = ByteReader::new(w);
    assert_eq!(MsdosDateTime::read(&mut r), Ok(d));
    assert_eq!(r.tell(), 4);
}

#[test]
fn read_of_three_bytes_fails_and_stays() {
    let mut r = ByteReader::new(vec![1, 2, 3, 4, 5]);
    r.seek(2);
    assert_eq!(MsdosDateTime::read(&mut r), Err(IoError::EndOfFile));
    assert_eq!(r.tell(), 2);
    r.seek(1);
    let d = MsdosDateTime::read(&mut r).unwrap();
    assert_eq!(words(&d), (0x0302, 0x0504));
    assert_eq!(d, MsdosDateTime::new(1982, 8, 4, 0, 24, 4));
    assert_eq!(r.tell(), 5);
}
