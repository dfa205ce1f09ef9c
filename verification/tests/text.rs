use zappy_server::protocol::parse_prefixed_id;
use zappy_server::text::{
    copy_bytes, is_space_byte, is_text, lowercase, parse_u64, push_bytes, push_decimal, push_text,
    same_bytes, split_command, split_words, text_bytes, trim, trim_end, trim_start,
};

#[test]
fn decimal_numbers_are_written_without_leading_zeros() {
    let mut out = Vec::new();
    push_decimal(&mut out, 0);
    push_text(&mut out, " ");
    push_decimal(&mut out, 7);
    push_text(&mut out, " ");
    push_decimal(&mut out, 1203);
    push_text(&mut out, " ");
    push_decimal(&mut out, u64::MAX);
    assert_eq!(out, b"0 7 1203 18446744073709551615".to_vec());
}

#[test]
fn bytes_are_appended_copied_and_compared() {
    let mut out = text_bytes("ab");
    push_bytes(&mut out, b"cd");
    assert_eq!(out, b"abcd".to_vec());
    assert_eq!(copy_bytes(b"xyz"), b"xyz".to_vec());
    assert!(same_bytes(b"abc", b"abc"));
    assert!(!same_bytes(b"abc", b"abd"));
    assert!(!same_bytes(b"abc", b"ab"));
    assert!(is_text(b"Forward", "Forward"));
    assert!(!is_text(b"forward", "Forward"));
}

#[test]
fn numbers_are_read_as_decimal() {
    assert_eq!(parse_u64(b"0"), Some(0));
    assert_eq!(parse_u64(b"42"), Some(42));
    assert_eq!(parse_u64(b"+42"), Some(42));
    assert_eq!(parse_u64(b"007"), Some(7));
    assert_eq!(parse_u64(b"18446744073709551615"), Some(u64::MAX));
    assert_eq!(parse_u64(b"18446744073709551616"), None);
    assert_eq!(parse_u64(b"99999999999999999999999"), None);
    assert_eq!(parse_u64(b""), None);
    assert_eq!(parse_u64(b"+"), None);
    assert_eq!(parse_u64(b"-1"), None);
    assert_eq!(parse_u64(b"12a"), None);
    assert_eq!(parse_u64(b" 12"), None);
    assert_eq!(parse_u64(b"1 2"), None);
}

#[test]
fn number_written_then_read_is_the_same() {
    for number in [0u64, 1, 9, 10, 99, 100, 4242, 1 << 40, u64::MAX] {
        let mut out = Vec::new();
        push_decimal(&mut out, number);
        assert_eq!(parse_u64(&out), Some(number));
    }
}

#[test]
fn white_space_is_trimmed() {
    assert_eq!(trim_end(b"abc \r\n"), b"abc");
    assert_eq!(trim_end(b"  a b\t"), b"  a b");
    assert_eq!(trim_end(b" \n"), b"");
    assert_eq!(trim_start(b" \t abc "), b"abc ");
    assert_eq!(trim(b" \t abc \n"), b"abc");
    assert_eq!(trim(b""), b"");
    assert!(is_space_byte(b' '));
    assert!(is_space_byte(0x0b));
    assert!(is_space_byte(0x0c));
    assert!(!is_space_byte(b'_'));
    assert!(!is_space_byte(0xa0));
}

#[test]
fn commands_are_cut_at_the_first_space() {
    assert_eq!(split_command(b"Forward"), (&b"Forward"[..], &b""[..]));
    assert_eq!(split_command(b"Take food"), (&b"Take"[..], &b"food"[..]));
    assert_eq!(split_command(b"Broadcast a b  c"), (&b"Broadcast"[..], &b"a b  c"[..]));
    assert_eq!(split_command(b" x"), (&b""[..], &b"x"[..]));
    assert_eq!(split_command(b"x "), (&b"x"[..], &b""[..]));
    assert_eq!(split_command(b""), (&b""[..], &b""[..]));
    assert_eq!(split_command(b"a\tb"), (&b"a\tb"[..], &b""[..]));
}

#[test]
fn words_are_split_at_white_space() {
    assert_eq!(split_words(b" 12  7\t"), vec![b"12".to_vec(), b"7".to_vec()]);
    assert_eq!(split_words(b"one"), vec![b"one".to_vec()]);
    assert_eq!(split_words(b"  \n "), Vec::<Vec<u8>>::new());
    assert_eq!(split_words(b""), Vec::<Vec<u8>>::new());
    assert_eq!(
        split_words(b"a b c"),
        vec![b"a".to_vec(), b"b".to_vec(), b"c".to_vec()]
    );
}

#[test]
fn capitals_are_lowered() {
    assert_eq!(lowercase(b"FoOd"), b"food".to_vec());
    assert_eq!(lowercase(b"AZ az @[ 09"), b"az az @[ 09".to_vec());
}

#[test]
fn handles_are_read_with_or_without_prefix() {
    assert_eq!(parse_prefixed_id(b"#12", b'#'), Some(12));
    assert_eq!(parse_prefixed_id(b"12", b'#'), Some(12));
    assert_eq!(parse_prefixed_id(b" #12 ", b'#'), Some(12));
    assert_eq!(parse_prefixed_id(b" 12", b'#'), None);
    assert_eq!(parse_prefixed_id(b"#", b'#'), None);
    assert_eq!(parse_prefixed_id(b"##1", b'#'), None);
    assert_eq!(parse_prefixed_id(b"", b'#'), None);
    assert_eq!(parse_prefixed_id(b"#x", b'#'), None);
}
