use ustr::{count_scalars, is_valid_utf8, scalar_width};

#[test]
fn widths_of_leading_bytes() {
    let b = "a\u{e9}\u{20ac}\u{1f600}".as_bytes();
    assert_eq!(scalar_width(b, 0, b.len()), 1);
    assert_eq!(scalar_width(b, 1, b.len()), 2);
    assert_eq!(scalar_width(b, 3, b.len()), 3);
    assert_eq!(scalar_width(b, 6, b.len()), 4);
    assert_eq!(scalar_width(b, 2, b.len()), 0);
    assert_eq!(scalar_width(b, 6, 9), 0);
}

#[test]
fn validity_of_prefixes() {
    let b = "x\u{e9}".as_bytes();
    assert!(is_valid_utf8(b, 0));
    assert!(is_valid_utf8(b, 1));
    assert!(!is_valid_utf8(b, 2));
    assert!(is_valid_utf8(b, 3));
    let bad: Vec<u8> = vec![b'o', b'k', 0xed, 0xbf, 0xbf];
    assert!(is_valid_utf8(&bad, 2));
    assert!(!is_valid_utf8(&bad, 5));
}

#[test]
fn scalar_counts() {
    let b = "\u{1f600}\u{1f600}ab\u{e9}".as_bytes();
    assert_eq!(count_scalars(b, b.len()), 5);
    assert_eq!(count_scalars(b, 4), 1);
    assert_eq!(count_scalars(b, 0), 0);
}
