use fasttime::memory;

#[test]
fn reads_back_what_was_written() {
    let mut bytes = vec![0u8; 8];
    assert_eq!(memory::write(&mut bytes, 2, b"abc"), Some(3));
    assert_eq!(memory::read(&bytes, 2, 3), Some(b"abc".to_vec()));
    assert_eq!(bytes, vec![0, 0, b'a', b'b', b'c', 0, 0, 0]);
}

#[test]
fn a_write_that_does_not_fit_changes_nothing() {
    let mut bytes = vec![7u8; 4];
    assert_eq!(memory::write(&mut bytes, 2, b"abc"), None);
    assert_eq!(memory::write(&mut bytes, -1, b"a"), None);
    assert_eq!(bytes, vec![7u8; 4]);
}

#[test]
fn reads_outside_the_memory_fail() {
    let bytes = vec![7u8; 4];
    assert_eq!(memory::read(&bytes, 0, 4), Some(vec![7u8; 4]));
    assert_eq!(memory::read(&bytes, 4, 0), Some(Vec::new()));
    assert_eq!(memory::read(&bytes, 1, 4), None);
    assert_eq!(memory::read(&bytes, -1, 1), None);
    assert_eq!(memory::read(&bytes, 0, -1), None);
    assert_eq!(memory::read(&bytes, i32::MAX, i32::MAX), None);
}

#[test]
fn integers_are_little_endian() {
    let mut bytes = vec![0u8; 8];
    memory::write_u32(&mut bytes, 0, 0x0102_0304);
    memory::write_i32(&mut bytes, 4, -2);
    assert_eq!(bytes, vec![4, 3, 2, 1, 0xfe, 0xff, 0xff, 0xff]);
}

#[test]
fn fits_at_the_end_only() {
    let bytes = vec![0u8; 8];
    assert!(memory::fits(&bytes, 4, 4));
    assert!(!memory::fits(&bytes, 5, 4));
    assert!(!memory::fits(&bytes, -4, 4));
    assert!(!memory::fits(&bytes, 1, usize::MAX));
}
