use http_server::text::{
    after_prefix, bytes_equal, bytes_equal_ignoring_case, copy_of, equals_ascii,
    equals_ascii_ignoring_case, find_byte, has_prefix, is_space_byte, join_from, join_with,
    push_ascii,
    push_bytes, push_decimal, skip_spaces, skip_word, split_lines, split_on, split_words,
    to_lower, trim_bytes,
};

fn decimal(n: usize) -> Vec<u8> {
    let mut out = Vec::new();
    push_decimal(&mut out, n);
    out
}

fn owned(parts: &[&[u8]]) -> Vec<Vec<u8>> {
    parts.iter().map(|p| p.to_vec()).collect()
}

#[test]
fn whitespace_is_space_and_tab_to_carriage_return() {
    for b in [b' ', b'\t', b'\n', 0x0b, 0x0c, b'\r'] {
        assert!(is_space_byte(b));
    }
    for b in [0x00, 0x08, 0x0e, 0x1f, b'a', b'0', 0x7f, 0x85, 0xa0, 0xff] {
        assert!(!is_space_byte(b));
    }
}

#[test]
fn lower_case_touches_ascii_letters_only() {
    assert_eq!(to_lower(b'A'), b'a');
    assert_eq!(to_lower(b'Z'), b'z');
    assert_eq!(to_lower(b'a'), b'a');
    assert_eq!(to_lower(b'@'), b'@');
    assert_eq!(to_lower(b'['), b'[');
    assert_eq!(to_lower(b'-'), b'-');
    assert_eq!(to_lower(0xc4), 0xc4);
}

#[test]
fn byte_strings_compare_exactly() {
    assert!(bytes_equal(b"", b""));
    assert!(bytes_equal(b"abc", b"abc"));
    assert!(!bytes_equal(b"abc", b"abd"));
    assert!(!bytes_equal(b"abc", b"ab"));
    assert!(!bytes_equal(b"abc", b"ABC"));
}

#[test]
fn byte_strings_compare_without_case() {
    assert!(bytes_equal_ignoring_case(b"Accept-Encoding", b"accept-encoding"));
    assert!(bytes_equal_ignoring_case(b"", b""));
    assert!(!bytes_equal_ignoring_case(b"accept", b"accept-encoding"));
    assert!(!bytes_equal_ignoring_case(b"host", b"hose"));
    assert!(!bytes_equal_ignoring_case(b"@", b"`"));
}

#[test]
fn keywords_are_compared_as_bytes() {
    assert!(equals_ascii(b"/index.html", "/index.html"));
    assert!(!equals_ascii(b"/Index.html", "/index.html"));
    assert!(equals_ascii_ignoring_case(b"GeT", "GET"));
    assert!(!equals_ascii_ignoring_case(b"GETS", "GET"));
}

#[test]
fn prefix_is_matched_at_the_start_only() {
    assert!(has_prefix(b"/echo/abc", "/echo/"));
    assert!(has_prefix(b"/echo/", "/echo/"));
    assert!(!has_prefix(b"/echo", "/echo/"));
    assert!(!has_prefix(b"x/echo/abc", "/echo/"));
    assert!(has_prefix(b"anything", ""));
}

#[test]
fn after_prefix_gives_the_rest() {
    assert_eq!(after_prefix(b"/files/note.txt", "/files/"), Some(&b"note.txt"[..]));
    assert_eq!(after_prefix(b"/files/", "/files/"), Some(&b""[..]));
    assert_eq!(after_prefix(b"/file/note.txt", "/files/"), None);
    assert_eq!(after_prefix(b"/a/files/x", "/files/"), None);
}

#[test]
fn pushing_appends() {
    let mut out = b"ab".to_vec();
    push_ascii(&mut out, "cd");
    push_bytes(&mut out, &[0, 255]);
    push_decimal(&mut out, 7);
    assert_eq!(out, vec![b'a', b'b', b'c', b'd', 0, 255, b'7']);
    assert_eq!(copy_of(&out), out);
}

#[test]
fn decimal_has_no_leading_zeros() {
    assert_eq!(decimal(0), b"0".to_vec());
    assert_eq!(decimal(9), b"9".to_vec());
    assert_eq!(decimal(10), b"10".to_vec());
    assert_eq!(decimal(200), b"200".to_vec());
    assert_eq!(decimal(404), b"404".to_vec());
    assert_eq!(decimal(1024), b"1024".to_vec());
    assert_eq!(decimal(65535), b"65535".to_vec());
    assert_eq!(decimal(1_000_000_007), b"1000000007".to_vec());
    assert_eq!(decimal(usize::MAX), format!("{}", usize::MAX).into_bytes());
}

#[test]
fn scanners_stop_at_the_first_match_or_the_end() {
    let s = b"ab  cd,e";
    assert_eq!(find_byte(s, 0, b','), 6);
    assert_eq!(find_byte(s, 7, b','), 8);
    assert_eq!(find_byte(s, 0, b'a'), 0);
    assert_eq!(find_byte(s, 1, b'a'), 8);
    assert_eq!(find_byte(s, 8, b'a'), 8);
    assert_eq!(skip_spaces(s, 2), 4);
    assert_eq!(skip_spaces(s, 0), 0);
    assert_eq!(skip_spaces(b"   ", 0), 3);
    assert_eq!(skip_word(s, 0), 2);
    assert_eq!(skip_word(s, 4), 8);
    assert_eq!(skip_word(s, 2), 2);
}

#[test]
fn trim_removes_whitespace_at_both_ends_only() {
    assert_eq!(trim_bytes(b"  gzip \t"), b"gzip");
    assert_eq!(trim_bytes(b"gzip"), b"gzip");
    assert_eq!(trim_bytes(b" a b "), b"a b");
    assert_eq!(trim_bytes(b" \r\n\t "), b"");
    assert_eq!(trim_bytes(b""), b"");
    assert_eq!(trim_bytes(b"\x0b\x0cx\x0b"), b"x");
}

#[test]
fn split_keeps_empty_pieces() {
    assert_eq!(split_on(b"a,b,c", b','), owned(&[b"a", b"b", b"c"]));
    assert_eq!(split_on(b"", b','), owned(&[b""]));
    assert_eq!(split_on(b",", b','), owned(&[b"", b""]));
    assert_eq!(split_on(b"a,,b,", b','), owned(&[b"a", b"", b"b", b""]));
    assert_eq!(split_on(b"identity, gzip", b','), owned(&[b"identity", b" gzip"]));
}

#[test]
fn lines_end_at_line_feed_with_optional_carriage_return() {
    assert_eq!(split_lines(b"a\r\nb\nc"), owned(&[b"a", b"b", b"c"]));
    assert_eq!(split_lines(b"a\r\nb\r\n"), owned(&[b"a", b"b"]));
    assert_eq!(split_lines(b"a\n\nb"), owned(&[b"a", b"", b"b"]));
    assert_eq!(split_lines(b"\r\n"), owned(&[b""]));
    assert_eq!(split_lines(b"\n\n"), owned(&[b"", b""]));
    assert_eq!(split_lines(b""), Vec::<Vec<u8>>::new());
}

#[test]
fn a_lone_carriage_return_is_part_of_its_line() {
    assert_eq!(split_lines(b"a\rb\n"), owned(&[b"a\rb"]));
    assert_eq!(split_lines(b"a\r\r\n"), owned(&[b"a\r"]));
    assert_eq!(split_lines(b"last\r"), owned(&[b"last\r"]));
}

#[test]
fn words_are_runs_without_whitespace() {
    assert_eq!(split_words(b"GET / HTTP/1.1"), owned(&[b"GET", b"/", b"HTTP/1.1"]));
    assert_eq!(split_words(b"  GET\t\t/x   HTTP/1.1  "), owned(&[b"GET", b"/x", b"HTTP/1.1"]));
    assert_eq!(split_words(b"one"), owned(&[b"one"]));
    assert_eq!(split_words(b"   "), Vec::<Vec<u8>>::new());
    assert_eq!(split_words(b""), Vec::<Vec<u8>>::new());
}

#[test]
fn lines_are_joined_by_single_line_feeds() {
    let ls = owned(&[b"a", b"b", b"", b"c"]);
    assert_eq!(join_from(&ls, 0), b"a\nb\n\nc".to_vec());
    assert_eq!(join_from(&ls, 1), b"b\n\nc".to_vec());
    assert_eq!(join_from(&ls, 2), b"\nc".to_vec());
    assert_eq!(join_from(&ls, 3), b"c".to_vec());
    assert_eq!(join_from(&ls, 4), b"".to_vec());
    assert_eq!(join_from(&owned(&[b"", b""]), 0), b"\n".to_vec());
}

#[test]
fn pieces_are_joined_by_the_separator() {
    let ls = owned(&[b"a", b"bc", b"", b"d"]);
    assert_eq!(join_with(&ls, 0, b'/'), b"a/bc//d".to_vec());
    assert_eq!(join_with(&ls, 1, b','), b"bc,,d".to_vec());
    assert_eq!(join_with(&ls, 3, b'/'), b"d".to_vec());
    assert_eq!(join_with(&ls, 4, b'/'), b"".to_vec());
    assert_eq!(join_with(&Vec::new(), 0, b'/'), b"".to_vec());
    assert_eq!(split_on(&join_with(&owned(&[b"x", b"y", b"z"]), 0, b'/'), b'/'), owned(&[b"x", b"y", b"z"]));
}
