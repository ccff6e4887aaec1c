use shargs::quote::{bash_quote, posix_quote};
use shargs::resolve::decimal_string;

#[test]
fn bash_plain_text_is_single_quoted() {
    assert_eq!(bash_quote("report.txt"), "'report.txt'");
    assert_eq!(bash_quote("two words"), "'two words'");
    assert_eq!(bash_quote("$HOME \"x\" `y`"), "'$HOME \"x\" `y`'");
}

#[test]
fn bash_empty_text() {
    assert_eq!(bash_quote(""), "''");
}

#[test]
fn bash_special_characters_use_dollar_form() {
    assert_eq!(bash_quote("a'b"), "$'a\\'b'");
    assert_eq!(bash_quote("a\\b"), "$'a\\\\b'");
    assert_eq!(bash_quote("a\rb"), "$'a\\rb'");
    assert_eq!(bash_quote("a\nb"), "$'a\\nb'");
    assert_eq!(bash_quote("a\tb"), "$'a\\tb'");
    assert_eq!(bash_quote("a\x1bb"), "$'a\\eb'");
}

#[test]
fn bash_all_special_characters_together() {
    assert_eq!(bash_quote("\\'\r\n\t\x1b"), "$'\\\\\\'\\r\\n\\t\\e'");
}

#[test]
fn bash_non_ascii_text_is_kept() {
    assert_eq!(bash_quote("grüße"), "'grüße'");
    assert_eq!(bash_quote("日本'語"), "$'日本\\'語'");
}

#[test]
fn posix_plain_text_is_single_quoted() {
    assert_eq!(posix_quote("report.txt"), "'report.txt'");
    assert_eq!(posix_quote("a\nb\\c"), "'a\nb\\c'");
}

#[test]
fn posix_quote_inside() {
    assert_eq!(posix_quote("a'b"), "'a'\\''b'");
}

#[test]
fn posix_leading_quote_leaves_no_empty_pair() {
    assert_eq!(posix_quote("'a"), "\\''a'");
}

#[test]
fn posix_trailing_quote_leaves_no_empty_pair() {
    assert_eq!(posix_quote("a'"), "'a'\\'");
}

#[test]
fn posix_single_quote_alone() {
    assert_eq!(posix_quote("'"), "\\'");
}

#[test]
fn posix_two_quotes() {
    assert_eq!(posix_quote("''"), "\\'''\\'");
}

#[test]
fn posix_empty_text_is_an_empty_pair() {
    assert_eq!(posix_quote(""), "''");
}

#[test]
fn posix_never_starts_or_ends_with_empty_pair() {
    for s in ["'", "''", "'''", "a", "'a", "a'", "'a'", "a'b", "''a''", "x''y"] {
        let q = posix_quote(s);
        assert!(!q.starts_with("''"), "{:?} gave {:?}", s, q);
        assert!(!q.ends_with("''"), "{:?} gave {:?}", s, q);
    }
}

#[test]
fn decimal_numerals() {
    assert_eq!(decimal_string(0), "0");
    assert_eq!(decimal_string(7), "7");
    assert_eq!(decimal_string(10), "10");
    assert_eq!(decimal_string(42), "42");
    assert_eq!(decimal_string(100), "100");
    assert_eq!(decimal_string(255), "255");
}
