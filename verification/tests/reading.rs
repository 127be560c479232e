//! Reading connection strings, configurations and JSON arguments.

use tryx_postgres::config::{connect_config, read_config, ConnectConfig};
use tryx_postgres::dispatch::call_args;
use tryx_postgres::dsn::{is_whitespace, parse_dsn, split_whitespace, str_chars, DsnSettings};
use tryx_postgres::json::{decode_byte_lists, decode_bytes, decode_flag_pairs, JsonValue};

fn text(s: &str) -> JsonValue {
    JsonValue::Str(s.to_string())
}

fn object(members: Vec<(&str, JsonValue)>) -> JsonValue {
    JsonValue::Object(members.into_iter().map(|(k, v)| (k.to_string(), v)).collect())
}

fn bytes_json(b: &[u64]) -> JsonValue {
    JsonValue::Array(b.iter().map(|n| JsonValue::PosInt(*n)).collect())
}

#[test]
fn dsn_default_connection_string() {
    let d = parse_dsn("host=localhost port=5432 dbname=tryx user=postgres password= sslmode=disable");
    assert_eq!(
        d,
        DsnSettings {
            host: Some("localhost".to_string()),
            port: Some(5432),
            dbname: Some("tryx".to_string()),
            user: Some("postgres".to_string()),
            password: Some(String::new()),
        }
    );
}

#[test]
fn dsn_empty_and_blank() {
    let none = DsnSettings { host: None, port: None, dbname: None, user: None, password: None };
    assert_eq!(parse_dsn(""), none);
    assert_eq!(parse_dsn(" \t\n "), none);
}

#[test]
fn dsn_later_setting_wins() {
    let d = parse_dsn("host=a host=b");
    assert_eq!(d.host.as_deref(), Some("b"));
}

#[test]
fn dsn_bad_port_clears_earlier_port() {
    assert_eq!(parse_dsn("port=5432 port=x").port, None);
    assert_eq!(parse_dsn("port=65536").port, None);
    assert_eq!(parse_dsn("port=65535").port, Some(65535));
    assert_eq!(parse_dsn("port=+80").port, Some(80));
    assert_eq!(parse_dsn("port=0080").port, Some(80));
    assert_eq!(parse_dsn("port=-1").port, None);
    assert_eq!(parse_dsn("port=+").port, None);
    assert_eq!(parse_dsn("port=").port, None);
    assert_eq!(parse_dsn("port=99999999999999999999").port, None);
}

#[test]
fn dsn_value_keeps_later_equals_signs() {
    let d = parse_dsn("password=a=b user=u");
    assert_eq!(d.password.as_deref(), Some("a=b"));
    assert_eq!(d.user.as_deref(), Some("u"));
}

#[test]
fn dsn_ignores_tokens_without_equals_and_unknown_keys() {
    let d = parse_dsn("localhost sslmode=require HOST=x =y dbname=db");
    assert_eq!(d.host, None);
    assert_eq!(d.dbname.as_deref(), Some("db"));
}

#[test]
fn dsn_splits_on_unicode_white_space() {
    let d = parse_dsn("host=a\u{3000}user=b\u{00A0}dbname=c\u{2003}port=1");
    assert_eq!(d.host.as_deref(), Some("a"));
    assert_eq!(d.user.as_deref(), Some("b"));
    assert_eq!(d.dbname.as_deref(), Some("c"));
    assert_eq!(d.port, Some(1));
}

#[test]
fn whitespace_classification() {
    for c in ['\t', '\n', '\u{0B}', '\u{0C}', '\r', ' ', '\u{85}', '\u{A0}', '\u{1680}', '\u{2000}', '\u{200A}', '\u{2028}', '\u{2029}', '\u{202F}', '\u{205F}', '\u{3000}'] {
        assert!(is_whitespace(c), "{:?}", c);
        assert_eq!(is_whitespace(c), c.is_whitespace());
    }
    for c in ['a', '=', '\u{200B}', '\u{FEFF}', '\u{180E}', '0'] {
        assert!(!is_whitespace(c), "{:?}", c);
        assert_eq!(is_whitespace(c), c.is_whitespace());
    }
}

#[test]
fn tokens_match_std_split() {
    let s = "  a bb\tccc\n\u{3000}d  ";
    let toks: Vec<String> = split_whitespace(&str_chars(s)).into_iter().map(|t| t.into_iter().collect()).collect();
    let expected: Vec<String> = s.split_whitespace().map(|t| t.to_string()).collect();
    assert_eq!(toks, expected);
}

#[test]
fn config_defaults() {
    let c = connect_config(&object(vec![]));
    assert_eq!(c, ConnectConfig { dsn: String::new(), pool_min: 2, pool_max: 10 });
    let c = connect_config(&JsonValue::Null);
    assert_eq!(c, ConnectConfig { dsn: String::new(), pool_min: 2, pool_max: 10 });
}

#[test]
fn config_given_values() {
    let c = connect_config(&object(vec![
        ("dsn", text("host=db")),
        ("pool_min", JsonValue::PosInt(1)),
        ("pool_max", JsonValue::PosInt(3)),
    ]));
    assert_eq!(c, ConnectConfig { dsn: "host=db".to_string(), pool_min: 1, pool_max: 3 });
}

#[test]
fn config_wrong_types_fall_back() {
    let c = connect_config(&object(vec![
        ("dsn", JsonValue::PosInt(5)),
        ("pool_min", JsonValue::NegInt(-1)),
        ("pool_max", JsonValue::Float),
    ]));
    assert_eq!(c, ConnectConfig { dsn: String::new(), pool_min: 2, pool_max: 10 });
}

#[test]
fn json_field_lookup() {
    let v = object(vec![("a", JsonValue::PosInt(1)), ("b", text("x"))]);
    assert_eq!(v.get("a"), Some(&JsonValue::PosInt(1)));
    assert_eq!(v.get("c"), None);
    assert_eq!(JsonValue::Array(vec![]).get("a"), None);
    assert_eq!(v.text_field("b"), "x");
    assert_eq!(v.text_field("a"), "");
    assert_eq!(v.i64_field("a"), 1);
    assert_eq!(v.i64_field("b"), 0);
    assert_eq!(v.u64_field_or("a", 7), 1);
    assert_eq!(v.u64_field_or("z", 7), 7);
}

#[test]
fn json_i64_reads() {
    let v = object(vec![
        ("neg", JsonValue::NegInt(-5)),
        ("big", JsonValue::PosInt(u64::MAX)),
        ("max", JsonValue::PosInt(i64::MAX as u64)),
        ("f", JsonValue::Float),
    ]);
    assert_eq!(v.i64_field("neg"), -5);
    assert_eq!(v.i64_field("big"), 0);
    assert_eq!(v.i64_field("max"), i64::MAX);
    assert_eq!(v.i64_field("f"), 0);
}

#[test]
fn json_bytes_decoding() {
    assert_eq!(decode_bytes(Some(&bytes_json(&[0, 1, 255]))), Some(vec![0, 1, 255]));
    assert_eq!(decode_bytes(Some(&bytes_json(&[]))), Some(vec![]));
    assert_eq!(decode_bytes(Some(&bytes_json(&[256]))), None);
    assert_eq!(decode_bytes(Some(&JsonValue::Array(vec![JsonValue::NegInt(-1)]))), None);
    assert_eq!(decode_bytes(Some(&JsonValue::Array(vec![JsonValue::Float]))), None);
    assert_eq!(decode_bytes(Some(&text("abc"))), None);
    assert_eq!(decode_bytes(None), None);
}

#[test]
fn json_flag_pairs_decoding() {
    let good = JsonValue::Array(vec![
        JsonValue::Array(vec![text("a"), JsonValue::Bool(true)]),
        JsonValue::Array(vec![text("b"), JsonValue::Bool(false)]),
    ]);
    assert_eq!(
        decode_flag_pairs(Some(&good)),
        Some(vec![("a".to_string(), true), ("b".to_string(), false)])
    );
    let long = JsonValue::Array(vec![JsonValue::Array(vec![text("a"), JsonValue::Bool(true), JsonValue::Null])]);
    assert_eq!(decode_flag_pairs(Some(&long)), None);
    let swapped = JsonValue::Array(vec![JsonValue::Array(vec![JsonValue::Bool(true), text("a")])]);
    assert_eq!(decode_flag_pairs(Some(&swapped)), None);
    assert_eq!(decode_flag_pairs(None), None);
}

#[test]
fn json_byte_lists_decoding() {
    let v = JsonValue::Array(vec![bytes_json(&[1, 2]), bytes_json(&[])]);
    assert_eq!(decode_byte_lists(Some(&v)), Some(vec![vec![1, 2], vec![]]));
    let bad = JsonValue::Array(vec![bytes_json(&[1]), bytes_json(&[300])]);
    assert_eq!(decode_byte_lists(Some(&bad)), None);
    assert_eq!(decode_byte_lists(Some(&JsonValue::Null)), None);
}

#[test]
fn whitespace_agrees_with_std_on_every_char() {
    for n in 0u32..=0x10FFFF {
        if let Some(c) = char::from_u32(n) {
            assert_eq!(is_whitespace(c), c.is_whitespace(), "{:#x}", n);
        }
    }
}

#[test]
fn port_agrees_with_std_parse() {
    let cases = [
        "0", "1", "5432", "65535", "65536", "70000", "+1", "++1", "+", "-0", "-1", "", "1a", "a1",
        "00000000000000000000065535", "00000000000000000000065536", "99999", "655350", "+65535",
        "\u{0661}", "12\u{0663}",
    ];
    for c in cases {
        let d = parse_dsn(&format!("port={}", c));
        assert_eq!(d.port, c.parse::<u16>().ok(), "{:?}", c);
    }
}

#[test]
fn config_text_is_read_as_json() {
    let c = read_config(br#"{"dsn":"host=localhost dbname=x","pool_min":2,"pool_max":10}"#);
    assert_eq!(c, Some(ConnectConfig { dsn: "host=localhost dbname=x".to_string(), pool_min: 2, pool_max: 10 }));
    let c = read_config(br#"{"pool_max": 4.5, "dsn": "a"}"#);
    assert_eq!(c, Some(ConnectConfig { dsn: "a".to_string(), pool_min: 2, pool_max: 10 }));
    assert_eq!(read_config(b""), None);
    assert_eq!(read_config(b"{\"dsn\":"), None);
    assert_eq!(read_config(b"null"), Some(ConnectConfig { dsn: String::new(), pool_min: 2, pool_max: 10 }));
}

#[test]
fn call_input_reading() {
    assert_eq!(call_args(b""), Some(JsonValue::Null));
    assert_eq!(call_args(b"null"), Some(JsonValue::Null));
    assert_eq!(call_args(b"[1, -2, 0.5, true, \"x\"]"), Some(JsonValue::Array(vec![
        JsonValue::PosInt(1),
        JsonValue::NegInt(-2),
        JsonValue::Float,
        JsonValue::Bool(true),
        text("x"),
    ])));
    assert_eq!(call_args(br#"{"b": {}, "a": 1}"#), Some(object(vec![("a", JsonValue::PosInt(1)), ("b", object(vec![]))])));
    assert_eq!(call_args(b"{"), None);
    assert_eq!(call_args(b"tru"), None);
}
