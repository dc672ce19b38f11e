use peer::bytes::{append_bytes, from_be_octets, to_be_octets, trimmed_len};

#[test]
fn numbers_are_split_most_significant_octet_first() {
    assert_eq!(to_be_octets(8080, 2), vec![0x1f, 0x90]);
    assert_eq!(to_be_octets(0x0102_0304, 4), vec![1, 2, 3, 4]);
    assert_eq!(to_be_octets(0x0102_0304, 2), vec![3, 4]);
    assert_eq!(to_be_octets(1, 16), vec![0, 0, 0, 0, 0, 0, 0, 0, 0, 0, 0, 0, 0, 0, 0, 1]);
    assert_eq!(to_be_octets(7, 0), Vec::<u8>::new());
}

#[test]
fn octets_are_read_most_significant_first() {
    assert_eq!(from_be_octets(&[0x1f, 0x90]), 8080);
    assert_eq!(from_be_octets(&[]), 0);
    assert_eq!(from_be_octets(&[1, 2, 3, 4]), 0x0102_0304);
    assert_eq!(from_be_octets(&[0xff; 16]), u128::MAX);
}

#[test]
fn splitting_and_reading_undo_each_other() {
    for value in [0u128, 1, 255, 256, 65535, 0xdead_beef, u128::MAX] {
        assert_eq!(from_be_octets(&to_be_octets(value, 16)), value);
    }
    assert_eq!(to_be_octets(from_be_octets(&[0, 9, 0]), 3), vec![0, 9, 0]);
}

#[test]
fn trimming_stops_at_the_last_octet_that_is_not_zero() {
    assert_eq!(trimmed_len(&[]), 0);
    assert_eq!(trimmed_len(&[0, 0, 0]), 0);
    assert_eq!(trimmed_len(&[1, 0, 2, 0, 0]), 3);
    assert_eq!(trimmed_len(&[0, 1]), 2);
}

#[test]
fn append_bytes_adds_at_the_end() {
    let mut bytes = vec![1, 2];
    append_bytes(&mut bytes, &[3, 4]);
    append_bytes(&mut bytes, &[]);
    assert_eq!(bytes, vec![1, 2, 3, 4]);
}
