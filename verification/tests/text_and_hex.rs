use media_gate::entropy::{draw_identifier, join};
use media_gate::hex::{decode_identifier, encode_identifier, TEXT_LEN};
use media_gate::text::{copy_range, holds_at, trim, trimmed_bounds};

#[test]
fn trim_removes_surrounding_whitespace_only() {
    assert_eq!(trim(b"  secret value \n"), b"secret value".to_vec());
    assert_eq!(trim(b"\t\r\n\x0b\x0c abc"), b"abc".to_vec());
    assert_eq!(trim(b"abc"), b"abc".to_vec());
    assert_eq!(trim(b"a"), b"a".to_vec());
    assert_eq!(trim(b" a "), b"a".to_vec());
}

#[test]
fn trim_of_nothing_or_only_whitespace_is_empty() {
    assert_eq!(trim(b""), Vec::<u8>::new());
    assert_eq!(trim(b" "), Vec::<u8>::new());
    assert_eq!(trim(b" \t\n\r\x0b\x0c "), Vec::<u8>::new());
}

#[test]
fn trim_keeps_bytes_that_are_not_ascii_whitespace() {
    assert_eq!(trim(b"\x00abc\x00"), b"\x00abc\x00".to_vec());
    assert_eq!(trim(b"\xa0abc\x85"), b"\xa0abc\x85".to_vec());
    assert_eq!(trim(b"\x08abc\x0e"), b"\x08abc\x0e".to_vec());
    assert_eq!(trim(b"\x1fabc\x21"), b"\x1fabc\x21".to_vec());
}

#[test]
fn trim_is_idempotent_on_samples() {
    let samples: [&[u8]; 5] = [b"", b"  ", b" a b ", b"\n\nx", b"3f9a2b7c-0000\n"];
    for sample in samples {
        let once = trim(sample);
        let twice = trim(&once);
        assert_eq!(once, twice);
    }
}

#[test]
fn trimmed_bounds_lie_within_the_part() {
    let text = b"ab;  cd  ;ef";
    assert_eq!(trimmed_bounds(text, 3, 9), (5, 7));
    assert_eq!(trimmed_bounds(text, 0, 2), (0, 2));
    assert_eq!(trimmed_bounds(text, 3, 5), (5, 5));
    assert_eq!(trimmed_bounds(text, 4, 4), (4, 4));
    assert_eq!(trimmed_bounds(text, 0, text.len()), (0, text.len()));
}

#[test]
fn copy_range_copies_the_part() {
    assert_eq!(copy_range(b"hello world", 6, 11), b"world".to_vec());
    assert_eq!(copy_range(b"hello", 2, 2), Vec::<u8>::new());
    assert_eq!(copy_range(b"hello", 0, 5), b"hello".to_vec());
}

#[test]
fn holds_at_needs_the_whole_pattern() {
    assert!(holds_at(b"session=abc", 0, b"session"));
    assert!(holds_at(b"x session", 2, b"session"));
    assert!(!holds_at(b"sessio", 0, b"session"));
    assert!(!holds_at(b"session", 1, b"session"));
    assert!(!holds_at(b"sesSion", 0, b"session"));
    assert!(holds_at(b"abc", 3, b""));
    assert!(holds_at(b"", 0, b""));
    assert!(!holds_at(b"abc", 3, b"c"));
}

#[test]
fn encode_writes_thirty_two_lower_case_digits() {
    assert_eq!(TEXT_LEN, 32);
    assert_eq!(encode_identifier(0), b"00000000000000000000000000000000".to_vec());
    assert_eq!(encode_identifier(1), b"00000000000000000000000000000001".to_vec());
    assert_eq!(encode_identifier(0xabc), b"00000000000000000000000000000abc".to_vec());
    assert_eq!(encode_identifier(u128::MAX), b"ffffffffffffffffffffffffffffffff".to_vec());
    assert_eq!(
        encode_identifier(0x0123456789abcdef_fedcba9876543210),
        b"0123456789abcdeffedcba9876543210".to_vec()
    );
    assert_eq!(
        encode_identifier(0x3f9a2b7c_0000_4000_8000_000000000001),
        b"3f9a2b7c000040008000000000000001".to_vec()
    );
}

#[test]
fn decode_reads_exactly_what_encode_writes() {
    assert_eq!(decode_identifier(b"00000000000000000000000000000000"), Some(0));
    assert_eq!(decode_identifier(b"ffffffffffffffffffffffffffffffff"), Some(u128::MAX));
    assert_eq!(
        decode_identifier(b"0123456789abcdeffedcba9876543210"),
        Some(0x0123456789abcdef_fedcba9876543210)
    );
    assert_eq!(decode_identifier(b"0000000000000000000000000000000a"), Some(10));
    assert_eq!(decode_identifier(b"10000000000000000000000000000000"), Some(1u128 << 124));
}

#[test]
fn decode_refuses_other_lengths_and_characters() {
    assert_eq!(decode_identifier(b""), None);
    assert_eq!(decode_identifier(b"0"), None);
    assert_eq!(decode_identifier(b"0000000000000000000000000000000"), None);
    assert_eq!(decode_identifier(b"000000000000000000000000000000000"), None);
    assert_eq!(decode_identifier(b"0123456789ABCDEFfedcba9876543210"), None);
    assert_eq!(decode_identifier(b"0123456789abcdeffedcba987654321g"), None);
    assert_eq!(decode_identifier(b"g123456789abcdeffedcba9876543210"), None);
    assert_eq!(decode_identifier(b"0123456789abcdef fedcba987654321"), None);
    assert_eq!(decode_identifier(b"3f9a2b7c-0000-4000-8000-00000000"), None);
    assert_eq!(decode_identifier(b"0123456789abcdef/edcba9876543210"), None);
    assert_eq!(decode_identifier(b"0123456789abcdef:edcba9876543210"), None);
    assert_eq!(decode_identifier(b"0123456789abcdef`edcba9876543210"), None);
}

#[test]
fn encode_and_decode_round_trip_on_samples() {
    let samples: [u128; 6] = [0, 1, 15, 16, 0xdead_beef, u128::MAX - 1];
    for value in samples {
        let text = encode_identifier(value);
        assert_eq!(text.len(), 32);
        assert_eq!(decode_identifier(&text), Some(value));
    }
}

#[test]
fn join_puts_the_high_half_first() {
    assert_eq!(join(0, 0), 0);
    assert_eq!(join(0, 7), 7);
    assert_eq!(join(1, 2), (1u128 << 64) + 2);
    assert_eq!(join(u64::MAX, u64::MAX), u128::MAX);
    assert_eq!(join(0x0123456789abcdef, 0xfedcba9876543210), 0x0123456789abcdef_fedcba9876543210);
}

#[test]
fn drawn_identifiers_differ() {
    let first = draw_identifier().expect("the system generator works here");
    let second = draw_identifier().expect("the system generator works here");
    let third = draw_identifier().expect("the system generator works here");
    assert_ne!(first, second);
    assert_ne!(second, third);
    assert_ne!(first, third);
}
