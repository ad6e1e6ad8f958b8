use zip::crc32::crc32;

#[test]
fn crc32_of_the_check_string() {
    assert_eq!(crc32(b"123456789"), 0xcbf43926);
}

#[test]
fn crc32_of_nothing_is_zero() {
    assert_eq!(crc32(b""), 0);
}

#[test]
fn crc32_of_known_texts() {
    assert_eq!(crc32(b"a"), 0xe8b7be43);
    assert_eq!(crc32(b"Hello, world!\n"), 0x7b55a718);
    assert_eq!(crc32(&[0u8; 32]), 0x190a55ad);
}

#[test]
fn crc32_tells_a_flipped_bit() {
    let mut data = b"lorem ipsum dolor sit amet".to_vec();
    let before = crc32(&data);
    data[7] ^= 0x10;
    assert_ne!(crc32(&data), before);
}
