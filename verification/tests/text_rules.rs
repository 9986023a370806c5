use time_tracker::text::{chars_of, i64_to_decimal, parse_i64, text_contains, trim};
use time_tracker::admin::pages::esc;

#[test]
fn parse_i64_agrees_with_std() {
    let cases = [
        "0", "7", "-7", "+7", "", "-", "+", "12a", " 12", "12 ", "9223372036854775807",
        "9223372036854775808", "-9223372036854775808", "-9223372036854775809", "000000000000000000000042",
        "-0", "+-1", "--1", "1_000", "١٢", "99999999999999999999999999",
    ];
    for c in cases {
        assert_eq!(parse_i64(c), c.parse::<i64>().ok(), "case {:?}", c);
    }
}

#[test]
fn parse_i64_exact_values() {
    assert_eq!(parse_i64("-9223372036854775808"), Some(i64::MIN));
    assert_eq!(parse_i64("9223372036854775807"), Some(i64::MAX));
    assert_eq!(parse_i64("+15"), Some(15));
    assert_eq!(parse_i64("15x"), None);
}

#[test]
fn decimal_agrees_with_display() {
    for n in [0i64, 1, 9, 10, 99, 100, -1, -10, 2000, 1234567890, i64::MAX, i64::MIN] {
        assert_eq!(i64_to_decimal(n), n.to_string());
    }
}

#[test]
fn decimal_reads_back() {
    for n in [0i64, 42, -42, i64::MAX, i64::MIN, 1700000000] {
        assert_eq!(parse_i64(trim(&i64_to_decimal(n))), Some(n));
    }
}

#[test]
fn trim_agrees_with_std() {
    let cases = [
        "", " ", "  a  ", "\t\n a b \r\n", "\u{3000}x\u{2003}", "\u{85}y\u{a0}", "\u{200b}z",
        "no-space", "\u{1680}\u{2028}\u{2029}\u{202f}\u{205f}w\u{0b}\u{0c}",
    ];
    for c in cases {
        assert_eq!(trim(c), c.trim(), "case {:?}", c);
    }
}

#[test]
fn escaping_replaces_the_four_markup_characters() {
    assert_eq!(esc("a & b <c> \"d\" 'e'"), "a &amp; b &lt;c&gt; &quot;d&quot; 'e'");
    assert_eq!(esc("plain text"), "plain text");
    assert_eq!(esc(""), "");
    assert_eq!(esc("&amp;"), "&amp;amp;");
}

#[test]
fn contains_agrees_with_std() {
    let ddl = "CREATE TABLE logs (id INTEGER, PRIMARY KEY (device_uuid, id))";
    assert!(text_contains(ddl, "PRIMARY KEY (device_uuid, id)"));
    assert!(!text_contains("CREATE TABLE logs (id INTEGER PRIMARY KEY)", "PRIMARY KEY (device_uuid, id)"));
    assert!(text_contains("abc", ""));
    assert!(!text_contains("", "a"));
    assert!(text_contains("aaab", "aab"));
}

#[test]
fn chars_of_lists_the_characters() {
    assert_eq!(chars_of("añb"), vec!['a', 'ñ', 'b']);
}

#[test]
fn escaping_keeps_distinct_texts_distinct() {
    assert_ne!(esc("&lt;"), esc("<"));
    assert_ne!(esc("&amp;"), esc("&"));
    assert_ne!(esc("a;"), esc("a"));
    assert_eq!(esc("&quot;;"), "&amp;quot;;");
}
