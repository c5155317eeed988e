use rison::escape::{can_be_bare, not_id, not_id_start};
use rison::{escaped_str, to_string, Value};

fn written(text: &str) -> String {
    let mut out = String::new();
    escaped_str(&mut out, text);
    out
}

#[test]
fn hello_is_bare() {
    assert_eq!(to_string(&Value::Str("hello".to_owned())).unwrap(), "hello");
    assert_eq!(written("hello"), "hello");
}

#[test]
fn space_forces_quotes() {
    assert_eq!(to_string(&Value::Str("a b".to_owned())).unwrap(), "'a b'");
}

#[test]
fn bang_and_quote_are_escaped() {
    assert_eq!(to_string(&Value::Str("it's!".to_owned())).unwrap(), "'it!'s!!'");
}

#[test]
fn empty_text_is_two_quotes() {
    assert_eq!(to_string(&Value::Str(String::new())).unwrap(), "''");
    assert_eq!(written(""), "''");
}

#[test]
fn escaped_str_appends() {
    let mut out = String::from("x=");
    escaped_str(&mut out, "a,b");
    assert_eq!(out, "x='a,b'");
    escaped_str(&mut out, "c");
    assert_eq!(out, "x='a,b'c");
}

#[test]
fn digits_and_minus_cannot_start_bare_text() {
    assert_eq!(written("1a"), "'1a'");
    assert_eq!(written("0"), "'0'");
    assert_eq!(written("9"), "'9'");
    assert_eq!(written("-x"), "'-x'");
    assert_eq!(written("-"), "'-'");
    assert_eq!(written("a1"), "a1");
    assert_eq!(written("a-1"), "a-1");
    assert_eq!(written("x-"), "x-");
}

#[test]
fn every_forbidden_character_forces_quotes() {
    assert_eq!(written("a b"), "'a b'");
    assert_eq!(written("a!b"), "'a!!b'");
    assert_eq!(written("a$b"), "'a$b'");
    assert_eq!(written("a'b"), "'a!'b'");
    assert_eq!(written("a(b"), "'a(b'");
    assert_eq!(written("a)b"), "'a)b'");
    assert_eq!(written("a*b"), "'a*b'");
    assert_eq!(written("a,b"), "'a,b'");
    assert_eq!(written("a:b"), "'a:b'");
    assert_eq!(written("a@b"), "'a@b'");
    assert_eq!(written("@"), "'@'");
    assert_eq!(written("!"), "'!!'");
    assert_eq!(written("'"), "'!''");
}

#[test]
fn every_whitespace_byte_forces_quotes() {
    assert_eq!(written("a\tb"), "'a\tb'");
    assert_eq!(written("a\nb"), "'a\nb'");
    assert_eq!(written("a\rb"), "'a\rb'");
    assert_eq!(written("a\u{b}b"), "'a\u{b}b'");
    assert_eq!(written("a\u{c}b"), "'a\u{c}b'");
    assert_eq!(written("\tab"), "'\tab'");
    assert_eq!(written("ab\n"), "'ab\n'");
    assert_eq!(written("\t"), "'\t'");
    assert_eq!(to_string(&Value::Str("a\tb".to_owned())).unwrap(), "'a\tb'");
    assert_eq!(to_string(&Value::Char('\n')).unwrap(), "'\n'");
}

#[test]
fn control_bytes_beside_whitespace_stay_bare() {
    assert_eq!(written("a\u{8}b"), "a\u{8}b");
    assert_eq!(written("a\u{e}b"), "a\u{e}b");
    assert_eq!(written("a\u{1f}b"), "a\u{1f}b");
    assert_eq!(written("a\u{7f}b"), "a\u{7f}b");
}

#[test]
fn other_punctuation_stays_bare() {
    assert_eq!(written("a.b"), "a.b");
    assert_eq!(written("a/b"), "a/b");
    assert_eq!(written("a_b"), "a_b");
    assert_eq!(written("a\"b"), "a\"b");
    assert_eq!(written("a#b"), "a#b");
    assert_eq!(written("a+b"), "a+b");
    assert_eq!(written("[x]"), "[x]");
    assert_eq!(written("~"), "~");
}

#[test]
fn text_beyond_ascii_stays_bare() {
    assert_eq!(written("é"), "é");
    assert_eq!(written("日本語"), "日本語");
    assert_eq!(written("naïve text"), "'naïve text'");
    assert_eq!(written("🦀!"), "'🦀!!'");
}

#[test]
fn only_bang_and_quote_are_escaped_inside_quotes() {
    assert_eq!(written("!!"), "'!!!!'");
    assert_eq!(written("''"), "'!'!''");
    assert_eq!(written("a !b' c"), "'a !!b!' c'");
    assert_eq!(written("(a:b)"), "'(a:b)'");
}

#[test]
fn forbidden_bytes_are_exactly_these() {
    let anywhere = b"\t\n\x0b\x0c\r !$'()*,:@";
    for b in 0..=255u8 {
        assert_eq!(not_id(b), anywhere.contains(&b), "byte {}", b);
        let at_start = anywhere.contains(&b) || b == b'-' || b.is_ascii_digit();
        assert_eq!(not_id_start(b), at_start, "byte {}", b);
    }
}

#[test]
fn bare_decision_on_bytes() {
    assert!(can_be_bare(b"abc"));
    assert!(can_be_bare(b"a"));
    assert!(can_be_bare(b"a1-"));
    assert!(!can_be_bare(b""));
    assert!(!can_be_bare(b"1"));
    assert!(!can_be_bare(b"-a"));
    assert!(!can_be_bare(b"a b"));
    assert!(!can_be_bare(b"a\tb"));
    assert!(!can_be_bare(b"\nab"));
    assert!(!can_be_bare(b"ab\r"));
    assert!(!can_be_bare(b"ab:"));
    assert!(can_be_bare("é".as_bytes()));
}

#[test]
fn quoted_text_is_bare_iff_unchanged() {
    let samples = ["a", "", "1", "a b", "ab", "-", "x!", "é", "a1", "a'", "a\tb", "\n", "a\r"];
    for s in samples {
        let out = written(s);
        assert_eq!(out == s, can_be_bare(s.as_bytes()), "text {:?}", s);
        if out != s {
            assert!(out.starts_with('\'') && out.ends_with('\''));
        }
    }
}
