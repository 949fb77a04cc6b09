use zenix::decode::{hex_digit, url_decode};
use zenix::query::{parse_query_str, QueryMap};

#[test]
fn url_decode_plus_is_space() {
    assert_eq!(url_decode("a+b+c"), "a b c");
}

#[test]
fn url_decode_percent_bytes() {
    assert_eq!(url_decode("%41%42c"), "ABc");
    assert_eq!(url_decode("%2f%2F"), "//");
}

#[test]
fn url_decode_plain_text_unchanged() {
    assert_eq!(url_decode("hello-world_1.2~"), "hello-world_1.2~");
    assert_eq!(url_decode(""), "");
}

#[test]
fn url_decode_bad_digits_count_as_zero() {
    assert_eq!(url_decode("%zz"), "\u{0}");
    assert_eq!(url_decode("%4g"), "@");
}

#[test]
fn url_decode_truncated_escape() {
    assert_eq!(url_decode("%4"), "@");
    assert_eq!(url_decode("%"), "\u{0}");
    assert_eq!(url_decode("x%"), "x\u{0}");
}

#[test]
fn url_decode_escape_swallows_following_chars() {
    assert_eq!(url_decode("%4+x"), "@x");
    assert_eq!(url_decode("%+41"), "\u{4}1");
}

#[test]
fn url_decode_bytes_become_latin1_chars() {
    assert_eq!(url_decode("%C3%A9"), "\u{c3}\u{a9}");
    assert_eq!(url_decode("%ff"), "\u{ff}");
}

#[test]
fn url_decode_keeps_non_ascii() {
    assert_eq!(url_decode("caf\u{e9}+\u{1f600}"), "caf\u{e9} \u{1f600}");
}

#[test]
fn hex_digit_values() {
    assert_eq!(hex_digit('0'), Some(0));
    assert_eq!(hex_digit('9'), Some(9));
    assert_eq!(hex_digit('a'), Some(10));
    assert_eq!(hex_digit('F'), Some(15));
    assert_eq!(hex_digit('g'), None);
    assert_eq!(hex_digit(' '), None);
}

fn value(m: &QueryMap, k: &str) -> Option<String> {
    m.get(k).cloned()
}

#[test]
fn parse_query_pairs() {
    let m = parse_query_str("a=1&b=two");
    assert_eq!(m.len(), 2);
    assert_eq!(value(&m, "a"), Some("1".to_string()));
    assert_eq!(value(&m, "b"), Some("two".to_string()));
    assert_eq!(value(&m, "c"), None);
}

#[test]
fn parse_query_later_value_wins() {
    let m = parse_query_str("a=1&a=2&b=3&a=4");
    assert_eq!(m.len(), 2);
    assert_eq!(value(&m, "a"), Some("4".to_string()));
    assert_eq!(value(&m, "b"), Some("3".to_string()));
}

#[test]
fn parse_query_skips_empty_pieces() {
    let m = parse_query_str("&&a=1&&");
    assert_eq!(m.len(), 1);
    assert_eq!(value(&m, "a"), Some("1".to_string()));
    assert_eq!(parse_query_str("").len(), 0);
    assert_eq!(parse_query_str("&").len(), 0);
}

#[test]
fn parse_query_key_without_value() {
    let m = parse_query_str("flag&x=");
    assert_eq!(value(&m, "flag"), Some(String::new()));
    assert_eq!(value(&m, "x"), Some(String::new()));
}

#[test]
fn parse_query_value_keeps_later_equals() {
    let m = parse_query_str("k=v=w");
    assert_eq!(value(&m, "k"), Some("v=w".to_string()));
}

#[test]
fn parse_query_decodes_after_splitting() {
    let m = parse_query_str("x+y=%41&a%26b=%3D1");
    assert_eq!(m.len(), 2);
    assert_eq!(value(&m, "x y"), Some("A".to_string()));
    assert_eq!(value(&m, "a&b"), Some("=1".to_string()));
}

#[test]
fn parse_query_empty_key() {
    let m = parse_query_str("=v");
    assert_eq!(value(&m, ""), Some("v".to_string()));
}

#[test]
fn query_map_insert_get_len() {
    let mut m = QueryMap::new();
    assert_eq!(m.len(), 0);
    m.insert("k".to_string(), "1".to_string());
    m.insert("j".to_string(), "2".to_string());
    m.insert("k".to_string(), "3".to_string());
    assert_eq!(m.len(), 2);
    assert_eq!(value(&m, "k"), Some("3".to_string()));
    assert_eq!(value(&m, "j"), Some("2".to_string()));
    assert_eq!(value(&m, "z"), None);
}

#[test]
fn url_decode_pieces_without_percent_decode_alone() {
    let a = "a+b/c";
    let b = "%41+x";
    assert_eq!(url_decode(&format!("{a}{b}")), format!("{}{}", url_decode(a), url_decode(b)));
}

#[test]
fn parse_query_halves_combine_right_wins() {
    let left = parse_query_str("a=1&b=2");
    let right = parse_query_str("b=3&c=4");
    let both = parse_query_str("a=1&b=2&b=3&c=4");
    assert_eq!(value(&both, "a"), value(&left, "a"));
    assert_eq!(value(&both, "b"), value(&right, "b"));
    assert_eq!(value(&both, "c"), value(&right, "c"));
    assert_eq!(both.len(), 3);
}

#[test]
fn url_decode_undoes_percent_encoding() {
    let t = "Az \u{e9}%+\u{0}\u{ff}";
    let e: String = t.chars().map(|c| format!("%{:02X}", c as u32)).collect();
    assert_eq!(url_decode(&e), t);
}
