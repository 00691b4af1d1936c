use lora_e5::text::{ascii_string, contains, ends_with, find, matches_at, same, starts_with, trimmed_len};

#[test]
fn find_gives_the_first_place() {
    assert_eq!(find(b"abcabc", b"bc"), Some(1));
    assert_eq!(find(b"abcabc", b"abc"), Some(0));
    assert_eq!(find(b"abcabc", b"c"), Some(2));
    assert_eq!(find(b"aaab", b"aab"), Some(1));
    assert_eq!(find(b"abcabc", b"cab"), Some(2));
    assert_eq!(find(b"abc", b"abc"), Some(0));
}

#[test]
fn find_gives_none_where_nothing_stands() {
    assert_eq!(find(b"abcabc", b"cb"), None);
    assert_eq!(find(b"abc", b"abcd"), None);
    assert_eq!(find(b"", b"a"), None);
    assert_eq!(find(b"RXWIN", b"RXWIN1"), None);
}

#[test]
fn the_empty_needle_stands_at_the_beginning() {
    assert_eq!(find(b"abc", b""), Some(0));
    assert_eq!(find(b"", b""), Some(0));
    assert!(contains(b"", b""));
    assert!(starts_with(b"abc", b""));
    assert!(ends_with(b"abc", b""));
}

#[test]
fn find_agrees_with_the_standard_library() {
    let text = "+CMSGHEX: Start\r\n+CMSGHEX: RXWIN1, RSSI -79, SNR 7.0\r\n+CMSGHEX: Done\r\n";
    for needle in ["RXWIN1", "RXWIN2", "\r\n", ", ", "+CMSGHEX: Done\r\n", "Start", "x", "7.0\r"] {
        assert_eq!(find(text.as_bytes(), needle.as_bytes()), text.find(needle));
        assert_eq!(contains(text.as_bytes(), needle.as_bytes()), text.contains(needle));
        assert_eq!(starts_with(text.as_bytes(), needle.as_bytes()), text.starts_with(needle));
        assert_eq!(ends_with(text.as_bytes(), needle.as_bytes()), text.ends_with(needle));
    }
}

#[test]
fn matches_at_looks_at_one_place() {
    assert!(matches_at(b"+AT: OK", b"OK", 5));
    assert!(!matches_at(b"+AT: OK", b"OK", 4));
    assert!(!matches_at(b"+AT: OK", b"OK", 6));
    assert!(!matches_at(b"+AT: OK", b"OK", 7));
    assert!(!matches_at(b"+AT: OK", b"OK", usize::MAX));
    assert!(matches_at(b"+AT: OK", b"", 7));
    assert!(!matches_at(b"+AT: OK", b"", 8));
}

#[test]
fn prefixes_and_suffixes() {
    assert!(starts_with(b"+AT: OK\r\n", b"+AT: "));
    assert!(!starts_with(b"+AT: OK\r\n", b"+VER: "));
    assert!(!starts_with(b"+AT", b"+AT: "));
    assert!(ends_with(b"+AT: OK\r\n", b"\n"));
    assert!(ends_with(b"+AT: OK\r\n", b"OK\r\n"));
    assert!(!ends_with(b"+AT: OK\r\n", b"OK"));
    assert!(!ends_with(b"\n", b"\r\n"));
}

#[test]
fn same_compares_every_byte() {
    assert!(same(b"", b""));
    assert!(same(b"OK", b"OK"));
    assert!(!same(b"OK", b"OK "));
    assert!(!same(b"OK", b"Ok"));
    assert!(!same(b"OK", b""));
}

#[test]
fn trimming_takes_line_ends_only() {
    assert_eq!(trimmed_len(b"OK\r\n"), 2);
    assert_eq!(trimmed_len(b"OK\n\r\n\n"), 2);
    assert_eq!(trimmed_len(b"OK"), 2);
    assert_eq!(trimmed_len(b"OK \r\n"), 3);
    assert_eq!(trimmed_len(b"OK\t\n"), 3);
    assert_eq!(trimmed_len(b"\r\nOK"), 4);
    assert_eq!(trimmed_len(b"O\nK\n"), 3);
    assert_eq!(trimmed_len(b"\r\n"), 0);
    assert_eq!(trimmed_len(b""), 0);
}

#[test]
fn ascii_bytes_become_a_string() {
    assert_eq!(ascii_string(b"7.0"), "7.0");
    assert_eq!(ascii_string(b""), "");
    assert_eq!(ascii_string(&[0x00, 0x7f]), "\u{0}\u{7f}");
}
