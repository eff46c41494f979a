use p2p_chat::text::{chat_line, chat_line_of, decimal, message_id, message_id_of};
use std::collections::hash_map::DefaultHasher;
use std::hash::{Hash, Hasher};

#[test]
fn decimal_writes_every_digit() {
    for n in [0, 1, 9, 10, 99, 100, 1234567890, 20_000_000, u64::MAX] {
        assert_eq!(decimal(n), n.to_string());
    }
    assert_eq!(decimal(u64::MAX), "18446744073709551615");
}

#[test]
fn an_id_is_the_hash_in_decimal() {
    assert_eq!(message_id_of(42), "42");
    let data: Vec<u8> = b"hello".to_vec();
    let mut hasher = DefaultHasher::new();
    data.hash(&mut hasher);
    assert_eq!(message_id(&data), hasher.finish().to_string());
}

#[test]
fn equal_messages_have_equal_ids() {
    assert_eq!(message_id(b"same"), message_id(b"same"));
    assert_ne!(message_id(b"same"), message_id(b"other"));
    assert_ne!(message_id(b""), message_id(b"\0"));
}

#[test]
fn different_hashes_have_different_ids() {
    assert_ne!(message_id_of(1), message_id_of(11));
    assert_ne!(message_id_of(10), message_id_of(1));
}

#[test]
fn a_chat_line_names_the_peer() {
    assert_eq!(chat_line("12D3", "grüße".as_bytes()), "12D3: grüße");
    assert_eq!(chat_line("12D3", b""), "12D3: ");
    assert_eq!(chat_line_of("a", "b: c"), "a: b: c");
}

#[test]
fn what_is_no_text_is_replaced() {
    assert_eq!(chat_line("p", b"a\xffb"), "p: a\u{fffd}b");
    assert_eq!(chat_line("p", b"\xe2\x82"), "p: \u{fffd}");
}
