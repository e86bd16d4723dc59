use jetson_watchdog::{empty_file_bytes, member_insertion};

fn add(content: &mut Vec<u8>, key: &str, value: &str) {
    let (offset, bytes) =
        member_insertion(content.len() as u64, key.as_bytes(), value.as_bytes()).unwrap();
    content.truncate(offset as usize);
    content.extend_from_slice(&bytes);
}

#[test]
fn fresh_file_is_empty_object() {
    assert_eq!(empty_file_bytes(), b"{}".to_vec());
}

#[test]
fn first_member_has_no_comma() {
    let (offset, bytes) = member_insertion(2, b"12.5", b"{\"a\":1}").unwrap();
    assert_eq!(offset, 1);
    assert_eq!(bytes, b"\"12.5\":{\"a\":1}}".to_vec());
}

#[test]
fn later_member_is_preceded_by_comma() {
    let (offset, bytes) = member_insertion(20, b"7.0", b"1").unwrap();
    assert_eq!(offset, 19);
    assert_eq!(bytes, b",\"7.0\":1}".to_vec());
}

#[test]
fn empty_file_cannot_take_member() {
    assert!(member_insertion(0, b"1.0", b"2").is_none());
}

#[test]
fn file_stays_one_object() {
    let mut content = empty_file_bytes();
    add(&mut content, "1.5", "{\"n\":1}");
    add(&mut content, "2.5", "{\"n\":2}");
    add(&mut content, "3.5", "[]");
    assert_eq!(
        String::from_utf8(content).unwrap(),
        "{\"1.5\":{\"n\":1},\"2.5\":{\"n\":2},\"3.5\":[]}"
    );
}
