use message_registry::decode::decode_bytes;

#[test]
fn well_formed_utf8_comes_through_unchanged() {
    assert_eq!(decode_bytes(b"key: some_key"), "key: some_key");
}

#[test]
fn ill_formed_bytes_become_replacement_characters() {
    assert_eq!(decode_bytes(&[0xff]), "\u{FFFD}");
    assert_eq!(decode_bytes(&[b'a', 0xc3, b'b']), "a\u{FFFD}b");
}

#[test]
fn no_bytes_decode_to_no_text() {
    assert_eq!(decode_bytes(&[]), "");
}
