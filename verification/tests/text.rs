use peer::text::{join, text_from_bytes};

#[test]
fn utf8_is_read_as_the_text_it_encodes() {
    assert_eq!(text_from_bytes(b"Yo!"), "Yo!");
    assert_eq!(text_from_bytes("мир".as_bytes()), "мир");
    assert_eq!(text_from_bytes(&[]), "");
    assert_eq!(text_from_bytes(&[b'a', 0]), "a\0");
}

#[test]
fn other_bytes_are_read_with_replacements() {
    assert_eq!(text_from_bytes(&[0xff]), "\u{fffd}");
    assert_eq!(text_from_bytes(&[b'a', 0xe2, 0x82, b'b']), "a\u{fffd}b");
}

#[test]
fn join_puts_the_separator_between_neighbours() {
    assert_eq!(join(&vec![], ", "), "");
    assert_eq!(join(&vec![String::from("a")], ", "), "a");
    assert_eq!(join(&vec![String::from("a"), String::from("b"), String::from("c")], ", "), "a, b, c");
    assert_eq!(join(&vec![String::new(), String::new()], "-"), "-");
}
