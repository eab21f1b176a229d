//! JSON parsing and serialization behavior, cross-checked against
//! serde_json where the two overlap.

use tokio_gcp::json::{json_parse_x, to_json_bytes, JsonVal};
use tokio_gcp::num::{dec_to_i64, i64_to_dec, u64_to_dec};

fn parse(s: &[u8]) -> Option<JsonVal> {
    json_parse_x(s)
}

#[test]
fn parses_scalars() {
    assert_eq!(parse(b"null"), Some(JsonVal::Null));
    assert_eq!(parse(b"true"), Some(JsonVal::Bool(true)));
    assert_eq!(parse(b"false"), Some(JsonVal::Bool(false)));
    assert_eq!(parse(b"42"), Some(JsonVal::Num(b"42".to_vec())));
    assert_eq!(parse(b"-1.5e3"), Some(JsonVal::Num(b"-1.5e3".to_vec())));
    assert_eq!(parse(b"\"hi\""), Some(JsonVal::Str(b"hi".to_vec())));
}

#[test]
fn parses_structures_with_whitespace() {
    let doc = b" { \"a\" : [ 1 , true , \"x\" ] , \"b\" : { } } ";
    let v = parse(doc).unwrap();
    match &v {
        JsonVal::Obj(ps) => {
            assert_eq!(ps.len(), 2);
            assert_eq!(ps[0].0, b"a".to_vec());
            match &ps[0].1 {
                JsonVal::Arr(xs) => assert_eq!(xs.len(), 3),
                _ => panic!("expected array"),
            }
        },
        _ => panic!("expected object"),
    }
}

#[test]
fn parses_escapes() {
    assert_eq!(parse(b"\"a\\nb\""), Some(JsonVal::Str(b"a\nb".to_vec())));
    assert_eq!(parse(b"\"\\u0041\""), Some(JsonVal::Str(b"A".to_vec())));
    assert_eq!(parse(b"\"\\u00e9\""), Some(JsonVal::Str("\u{e9}".as_bytes().to_vec())));
    assert_eq!(parse(b"\"\\u20ac\""), Some(JsonVal::Str("\u{20ac}".as_bytes().to_vec())));
    // a lone surrogate is rejected
    assert_eq!(parse(b"\"\\ud800\""), None);
}

#[test]
fn rejects_malformed_documents() {
    assert_eq!(parse(b""), None);
    assert_eq!(parse(b"{"), None);
    assert_eq!(parse(b"{\"a\":}"), None);
    assert_eq!(parse(b"[1,]"), None);
    assert_eq!(parse(b"tru"), None);
    assert_eq!(parse(b"\"unterminated"), None);
    assert_eq!(parse(b"{} trailing"), None);
}

#[test]
fn serializer_output_is_valid_for_serde_json() {
    let v = JsonVal::Obj(vec![
        (b"s".to_vec(), JsonVal::Str(b"a\"b\\c\nd".to_vec())),
        (b"n".to_vec(), JsonVal::Num(b"-12".to_vec())),
        (b"l".to_vec(), JsonVal::Arr(vec![JsonVal::Null, JsonVal::Bool(true)])),
    ]);
    let text = to_json_bytes(&v);
    let reparsed: serde_json::Value = serde_json::from_slice(&text).unwrap();
    assert_eq!(reparsed["s"], serde_json::Value::String("a\"b\\c\nd".to_string()));
    assert_eq!(reparsed["n"], serde_json::Value::from(-12i64));
    assert_eq!(reparsed["l"].as_array().unwrap().len(), 2);
}

#[test]
fn serializer_parser_round_trip() {
    let v = JsonVal::Obj(vec![
        (b"k1".to_vec(), JsonVal::Str(b"plain".to_vec())),
        (b"k2".to_vec(), JsonVal::Num(b"123".to_vec())),
        (b"k3".to_vec(), JsonVal::Arr(vec![
            JsonVal::Str(b"quote\"backslash\\".to_vec()),
            JsonVal::Obj(vec![(b"inner".to_vec(), JsonVal::Null)]),
        ])),
    ]);
    let text = to_json_bytes(&v);
    assert_eq!(parse(&text), Some(v));
}

#[test]
fn decimal_text_is_canonical() {
    assert_eq!(u64_to_dec(0), b"0".to_vec());
    assert_eq!(u64_to_dec(3599), b"3599".to_vec());
    assert_eq!(i64_to_dec(-60), b"-60".to_vec());
    assert_eq!(i64_to_dec(i64::MIN), b"-9223372036854775808".to_vec());
    assert_eq!(dec_to_i64(b"3600"), Some(3600));
    assert_eq!(dec_to_i64(b"-1"), Some(-1));
    assert_eq!(dec_to_i64(b"007"), None);
    assert_eq!(dec_to_i64(b"-0"), None);
    assert_eq!(dec_to_i64(b"9223372036854775807"), Some(i64::MAX));
    assert_eq!(dec_to_i64(b"9223372036854775808"), None);
    assert_eq!(dec_to_i64(b""), None);
}
