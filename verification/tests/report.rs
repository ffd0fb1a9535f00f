use cm::report::parse_heap_peak;

fn peak(s: &[u8]) -> Option<u64> {
    parse_heap_peak(&s.to_vec())
}

#[test]
fn reads_the_first_announced_peak() {
    assert_eq!(peak(b"WORK: 5\nHEAP_PEAK: 12345 bytes (peak)\nHEAP_PEAK: 9\n"), Some(12345));
    assert_eq!(peak(b"HEAP_PEAK: 7"), Some(7));
}

#[test]
fn lines_without_a_token_are_skipped() {
    assert_eq!(peak(b"HEAP_PEAK:   \nHEAP_PEAK: 7\n"), Some(7));
    assert_eq!(peak(b"HEAP_PEAK: \r\nHEAP_PEAK: 8\r\n"), Some(8));
}

#[test]
fn a_bad_first_token_is_not_retried() {
    assert_eq!(peak(b"HEAP_PEAK: x7\nHEAP_PEAK: 8\n"), None);
    assert_eq!(peak(b"HEAP_PEAK: -1\n"), None);
}

#[test]
fn numbers_follow_unsigned_parsing() {
    assert_eq!(peak(b"HEAP_PEAK: +42\r\n"), Some(42));
    assert_eq!(peak(b"HEAP_PEAK: 18446744073709551615"), Some(u64::MAX));
    assert_eq!(peak(b"HEAP_PEAK: 18446744073709551616"), None);
    assert_eq!(peak(b"HEAP_PEAK: +"), None);
}

#[test]
fn the_key_must_start_the_line() {
    assert_eq!(peak(b"  HEAP_PEAK: 5\n"), None);
    assert_eq!(peak(b"HEAP_PEAK:5\n"), None);
    assert_eq!(peak(b""), None);
}

#[test]
fn unicode_spaces_separate_tokens() {
    assert_eq!(peak("HEAP_PEAK: \u{3000}9\u{a0}kB\n".as_bytes()), Some(9));
    assert_eq!(peak("HEAP_PEAK: 9\u{2028}\n".as_bytes()), Some(9));
    // A zero-width space is not whitespace.
    assert_eq!(peak("HEAP_PEAK: 9\u{200b}\n".as_bytes()), None);
}
