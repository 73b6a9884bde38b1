use hemdaimail::tasks::user_events_channel;
use hemdaimail::json::{push_decimal, push_json_string};
use hemdaimail::text::{
    chars_eq_ignore_case, chars_equal, chars_of, contains_chars, split_chars, split_words,
    starts_with_chars, string_of, trim_chars,
};

fn s(v: &[char]) -> String {
    v.iter().collect()
}

#[test]
fn chars_round_trip() {
    let v = chars_of("héllo wörld");
    assert_eq!(v.len(), 11);
    assert_eq!(string_of(&v), "héllo wörld");
}

#[test]
fn trim_removes_unicode_whitespace() {
    let v = chars_of("\u{3000}\t a b \u{a0}\n");
    assert_eq!(s(&trim_chars(&v)), "a b");
    assert_eq!(s(&trim_chars(&chars_of("   "))), "");
    assert_eq!(s(&trim_chars(&chars_of(""))), "");
}

#[test]
fn split_keeps_empty_pieces() {
    let pieces = split_chars(&chars_of("a,,b,"), ',');
    let got: Vec<String> = pieces.iter().map(|p| s(p)).collect();
    assert_eq!(got, vec!["a", "", "b", ""]);
    let empty = split_chars(&chars_of(""), ',');
    assert_eq!(empty.len(), 1);
    assert!(empty[0].is_empty());
}

#[test]
fn split_words_matches_std() {
    let text = "  <a@x>\t<b@y>\n\n <c@z>  ";
    let got: Vec<String> = split_words(&chars_of(text)).iter().map(|p| s(p)).collect();
    let want: Vec<String> = text.split_whitespace().map(|w| w.to_string()).collect();
    assert_eq!(got, want);
    assert!(split_words(&chars_of(" \t ")).is_empty());
}

#[test]
fn case_insensitive_comparison() {
    assert!(chars_eq_ignore_case(&chars_of("Content-TYPE"), &chars_of("content-type")));
    assert!(!chars_eq_ignore_case(&chars_of("Content-Type"), &chars_of("Content-Typ")));
    assert!(!chars_eq_ignore_case(&chars_of("É"), &chars_of("é")));
    assert!(chars_equal(&chars_of("abc"), &chars_of("abc")));
    assert!(!chars_equal(&chars_of("abc"), &chars_of("abd")));
}

#[test]
fn substring_and_prefix_search() {
    let ct = chars_of("multipart/alternative; charset=\"text/plain\"");
    assert!(contains_chars(&ct, &chars_of("text/plain")));
    assert!(!contains_chars(&ct, &chars_of("text/html")));
    assert!(contains_chars(&ct, &chars_of("")));
    assert!(starts_with_chars(&chars_of("Bearer xyz"), &chars_of("Bearer ")));
    assert!(!starts_with_chars(&chars_of("Bear"), &chars_of("Bearer ")));
}

fn uuid_text(id: u128) -> String {
    user_events_channel(id).trim_start_matches("user_events:").to_string()
}

#[test]
fn uuid_hyphenated_form() {
    assert_eq!(uuid_text(0x67e5504410b1426f9247bb680e5fe0c8), "67e55044-10b1-426f-9247-bb680e5fe0c8");
    assert_eq!(uuid_text(0), "00000000-0000-0000-0000-000000000000");
    assert_eq!(uuid_text(u128::MAX), "ffffffff-ffff-ffff-ffff-ffffffffffff");
    assert_eq!(uuid_text(0x0123456789abcdef0123456789abcdef), "01234567-89ab-cdef-0123-456789abcdef");
}

#[test]
fn json_string_escaping_matches_serde_json() {
    let samples = ["plain", "quote\" back\\slash", "ctl\u{1}\u{8}\u{c}\n\r\t\u{1f}", "ünï ✓"];
    for text in samples {
        let mut out = String::new();
        push_json_string(&mut out, text);
        assert_eq!(out, serde_json::to_string(text).unwrap());
    }
}

#[test]
fn decimal_digits() {
    let mut out = String::from("n=");
    push_decimal(&mut out, 0);
    push_decimal(&mut out, 1700000900);
    assert_eq!(out, "n=01700000900");
}
