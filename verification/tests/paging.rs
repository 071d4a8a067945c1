use fasttime::order;
use fasttime::paging::{page_fits, write_page};

fn items() -> Vec<Vec<u8>> {
    vec![b"pear".to_vec(), b"fig".to_vec(), b"pea".to_vec()]
}

fn word(memory: &[u8], at: usize) -> i32 {
    i32::from_le_bytes([memory[at], memory[at + 1], memory[at + 2], memory[at + 3]])
}

#[test]
fn sorts_as_std_does() {
    let unsorted: Vec<Vec<u8>> = vec![
        b"b".to_vec(),
        b"".to_vec(),
        b"ab".to_vec(),
        b"a".to_vec(),
        vec![0xff],
        b"ab".to_vec(),
        b"B".to_vec(),
    ];
    let mut expected = unsorted.clone();
    expected.sort();
    assert_eq!(order::sort(unsorted), expected);
}

#[test]
fn order_puts_prefixes_first() {
    assert!(order::is_at_most(b"pea", b"pear"));
    assert!(!order::is_at_most(b"pear", b"pea"));
    assert!(order::is_at_most(b"pea", b"pea"));
    assert!(!order::is_at_most(b"q", b"pear"));
}

#[test]
fn following_the_cursors_lists_everything() {
    let mut cursor = 0;
    let mut listed: Vec<Vec<u8>> = Vec::new();
    while cursor != -1 {
        let mut memory = vec![9u8; 32];
        assert!(page_fits(items(), &memory, 8, cursor, 4, 0));
        write_page(items(), &mut memory, 8, cursor, 4, 0);
        let length = word(&memory, 0) as usize;
        assert_eq!(memory[8 + length - 1], 0);
        listed.push(memory[8..8 + length - 1].to_vec());
        cursor = word(&memory, 4);
    }
    assert_eq!(listed, vec![b"fig".to_vec(), b"pea".to_vec(), b"pear".to_vec()]);
}

#[test]
fn a_cursor_past_the_end_gets_nothing() {
    for cursor in [3, i32::MAX, -1] {
        let mut memory = vec![9u8; 12];
        assert!(page_fits(items(), &memory, 100, cursor, 4, 0));
        write_page(items(), &mut memory, 100, cursor, 4, 0);
        assert_eq!(word(&memory, 0), 0);
        assert_eq!(word(&memory, 4), -1);
        assert_eq!(memory[8..12], [9, 9, 9, 9]);
    }
}

#[test]
fn a_page_that_does_not_fit_is_told() {
    let memory = vec![0u8; 12];
    assert!(page_fits(items(), &memory, 8, 0, 4, 0));
    assert!(!page_fits(items(), &memory, 9, 0, 4, 0));
    assert!(!page_fits(items(), &memory, 8, 0, 9, 0));
    assert!(!page_fits(items(), &memory, 8, 0, 4, -1));
}
