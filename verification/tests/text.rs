use tinybrowser::json::{json_array, json_member, json_object, json_string};
use tinybrowser::number::{parse_decimal, write_decimal, write_signed};
use tinybrowser::text::{
    contains, ends_with, join, replace_char, split_char, split_once, split_text, split_words,
    starts_with, strip_prefix, to_lower, to_upper, trim, trim_statement,
};

fn s(text: &str) -> String {
    text.to_string()
}

#[test]
fn texts_are_searched() {
    assert!(contains("abcabd", "abd"));
    assert!(!contains("abc", "abcd"));
    assert!(contains("abc", ""));
    assert!(starts_with("data:x", "data:"));
    assert!(ends_with("a.localhost", ".localhost"));
    assert_eq!(strip_prefix("node-5", "node-"), Some(s("5")));
    assert_eq!(strip_prefix("5", "node-"), None);
}

#[test]
fn texts_are_cut() {
    assert_eq!(split_once("a=b=c", '='), Some((s("a"), s("b=c"))));
    assert_eq!(split_once("abc", '='), None);
    assert_eq!(split_char("a*b**c", '*'), vec![s("a"), s("b"), s(""), s("c")]);
    assert_eq!(split_text("a; b; ", "; "), vec![s("a"), s("b"), s("")]);
    assert_eq!(split_words("  a\tb \n c "), vec![s("a"), s("b"), s("c")]);
    assert_eq!(join(&vec![s("a"), s("b")], ", "), "a, b");
    assert_eq!(join(&vec![], ", "), "");
}

#[test]
fn texts_are_changed() {
    assert_eq!(to_lower("ÄBC"), "Äbc");
    assert_eq!(to_upper("abcß"), "ABCß");
    assert_eq!(replace_char("a'b'", '\'', "\\'"), "a\\'b\\'");
    assert_eq!(trim(" \u{a0}x y\u{3000}\n"), "x y");
    assert_eq!(trim_statement("  x ; ;\n"), "x");
}

#[test]
fn numbers_are_written_and_read() {
    assert_eq!(write_decimal(0), "0");
    assert_eq!(write_decimal(u64::MAX), "18446744073709551615");
    assert_eq!(write_signed(-1), "-1");
    assert_eq!(write_signed(i64::MIN + 1), "-9223372036854775807");
    assert_eq!(parse_decimal("+42", 100), Some(42));
    assert_eq!(parse_decimal("101", 100), None);
    assert_eq!(parse_decimal("", 100), None);
    assert_eq!(parse_decimal("+", 100), None);
    assert_eq!(parse_decimal("-1", 100), None);
    assert_eq!(parse_decimal("18446744073709551616", u64::MAX), None);
}

#[test]
fn json_is_written() {
    assert_eq!(json_string("a\"\\\n\u{1}é"), "\"a\\\"\\\\\\n\\u0001é\"");
    assert_eq!(json_array(&vec![s("1"), s("2")]), "[1,2]");
    assert_eq!(json_object(&vec![json_member("k", "1"), json_member("l", "2")]), "{\"k\":1,\"l\":2}");
}

#[test]
fn json_strings_read_back_as_they_were() {
    let texts = ["", "\"", "\\\"", "\\u0001", "\u{1}", "\u{8}\t\n\u{c}\r\u{1f}", "a\u{7f}b", "é\u{2028}\u{1f600}"];
    for (i, a) in texts.iter().enumerate() {
        let read: String = serde_json::from_str(&json_string(a)).unwrap();
        assert_eq!(read, *a);
        for b in texts.iter().skip(i + 1) {
            assert_ne!(json_string(a), json_string(b));
        }
    }
}
