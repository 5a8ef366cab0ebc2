use rskr::percent::{decode_bytes, encode_percent, PercentDecoder};

fn compare(input: &str, output: &str) {
    assert_eq!(input.decode_percent().unwrap(), output.to_owned());
}

fn assert_none(input: &str) {
    assert_eq!(input.decode_percent(), None);
}

#[test]
fn decode_percent() {
    compare("abc", "abc");
    compare("a%20bc", "a bc");
    compare("a%2Fbc", "a/bc");
    compare("%EA%B0%80%EB%82%98%EB%8B%A4", "가나다");
}

#[test]
fn decode_percent_bad() {
    assert_none("%");
    assert_none("%2");
    assert_none("%FF");
}

#[test]
fn decode_percent_empty() {
    compare("", "");
}

#[test]
fn decode_percent_lower_case_digits() {
    compare("a%2fbc", "a/bc");
    compare("%ea%b0%80", "가");
    compare("%7e%7E", "~~");
}

#[test]
fn decode_percent_escaped_percent() {
    compare("100%25", "100%");
    compare("%2520", "%20");
}

#[test]
fn decode_percent_keeps_text_that_is_not_ascii() {
    compare("가나다", "가나다");
    compare("caf\u{e9}%20au%20lait", "caf\u{e9} au lait");
}

#[test]
fn decode_percent_rejects_digits_that_are_not_hex() {
    assert_none("%G0");
    assert_none("%0G");
    assert_none("%0g");
    assert_none("% 1");
    assert_none("%%%");
    assert_none("abc%2");
    assert_none("abc%");
    assert_none("%:0");
    assert_none("%/0");
    assert_none("%@0");
    assert_none("%`0");
}

#[test]
fn decode_percent_rejects_bytes_that_are_not_utf8() {
    assert_none("%80");
    assert_none("%C3");
    assert_none("%C3%28");
    assert_none("%ED%A0%80");
    assert_none("%C0%AF");
    assert_none("%F4%90%80%80");
    assert_none("ok%FFok");
}

#[test]
fn decode_percent_joins_escaped_and_plain_bytes() {
    // the two bytes of U+00E9, one of them escaped
    assert_none("%C3\u{e9}");
    compare("%C3%A9", "\u{e9}");
}

#[test]
fn decode_bytes_gives_the_bytes_before_utf8_is_checked() {
    assert_eq!(decode_bytes(b"%FF%00a"), Some(vec![0xff, 0x00, b'a']));
    assert_eq!(decode_bytes(b"%F"), None);
    assert_eq!(decode_bytes(b""), Some(vec![]));
}

#[test]
fn encode_percent_exact() {
    assert_eq!(encode_percent(""), "");
    assert_eq!(encode_percent("abc-XYZ_0.9~"), "abc-XYZ_0.9~");
    assert_eq!(encode_percent("a bc"), "a%20bc");
    assert_eq!(encode_percent("a/bc"), "a%2Fbc");
    assert_eq!(encode_percent("100%"), "100%25");
    assert_eq!(encode_percent("가나다"), "%EA%B0%80%EB%82%98%EB%8B%A4");
    assert_eq!(encode_percent("\u{0}\u{7f}"), "%00%7F");
}

#[test]
fn decode_undoes_encode() {
    for s in ["", "abc", "a bc", "a/b/c.md", "100% sure", "%41", "가나다", "caf\u{e9}", "\u{1F600}!", "{{x}}\n"] {
        assert_eq!(encode_percent(s).decode_percent(), Some(s.to_owned()));
    }
}

#[test]
fn text_without_percent_decodes_to_itself() {
    for s in ["", "index", "/pages/foo", "a b", "가나다", "\u{1F600}"] {
        assert_eq!(s.decode_percent(), Some(s.to_owned()));
    }
}
