use mist::order::path_le;

#[test]
fn paths_are_ordered_byte_by_byte() {
    let le = |a: &str, b: &str| path_le(&a.as_bytes().to_vec(), &b.as_bytes().to_vec());
    assert!(le("", ""));
    assert!(le("", "a"));
    assert!(!le("a", ""));
    assert!(le("a", "a"));
    assert!(le("a", "ab"));
    assert!(!le("ab", "a"));
    assert!(le("a.txt", "a/b"));
    assert!(!le("a/b", "a.txt"));
    assert!(le("Z", "a"));
    assert!(!le("b", "a"));
}

#[test]
fn path_order_agrees_with_the_order_of_byte_strings() {
    let paths: [&[u8]; 7] = [b"", b"a", b"ab", b"a/b", b"a.b", b"\xff", b"b"];
    for a in paths {
        for b in paths {
            assert_eq!(path_le(&a.to_vec(), &b.to_vec()), a <= b);
        }
    }
}
