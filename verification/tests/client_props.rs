//! Query and form encoding, response decoding, and the key-ring TTL.

use tokio_gcp::auth::gcert::{cc_max_age, mk_expires_at, KeyRing, PubKey};
use tokio_gcp::client::{
    decode_response, encode_form_params, encode_query_params, ApiError, Error,
};

fn pairs(ps: &[(&str, &str)]) -> Vec<(Vec<u8>, Vec<u8>)> {
    ps.iter().map(|(k, v)| (k.as_bytes().to_vec(), v.as_bytes().to_vec())).collect()
}

#[test]
fn query_encoding_escapes_reserved_bytes() {
    let q = encode_query_params(&pairs(&[("a b", "c&d"), ("k", "v")]));
    assert_eq!(String::from_utf8(q).unwrap(), "a%20b=c&d&k=v");
    let q = encode_query_params(&pairs(&[("x", "a\"<>#")]));
    assert_eq!(String::from_utf8(q).unwrap(), "x=a%22%3C%3E%23");
    let q = encode_query_params(&pairs(&[]));
    assert_eq!(q.len(), 0);
}

#[test]
fn form_encoding_follows_urlencoded_rules() {
    let q = encode_form_params(&pairs(&[("grant_type", "refresh_token")]));
    assert_eq!(String::from_utf8(q).unwrap(), "grant_type=refresh_token");
    let q = encode_form_params(&pairs(&[("a b", "x*-._~y")]));
    // space becomes '+', the four safe marks pass, '~' is escaped
    assert_eq!(String::from_utf8(q).unwrap(), "a+b=x*-._%7Ey");
    let q = encode_form_params(&pairs(&[("u", "urn:ietf:params")]));
    assert_eq!(String::from_utf8(q).unwrap(), "u=urn%3Aietf%3Aparams");
}

#[test]
fn success_responses_decode_to_their_document() {
    let v = decode_response(200, br#"{"ok":true}"#).expect("decoded");
    match v {
        tokio_gcp::json::JsonVal::Obj(ps) => assert_eq!(ps.len(), 1),
        _ => panic!("expected object"),
    }
}

#[test]
fn error_responses_decode_to_the_envelope() {
    let body = br#"{"error":{"code":403,"message":"denied","status":"PERMISSION_DENIED"},"error_description":"no"}"#;
    match decode_response(403, body) {
        Err(Error::ApiError(ApiError { error, error_description })) => {
            let d = error.expect("details");
            assert_eq!(d.code, Some(403));
            assert_eq!(d.message.as_deref(), Some("denied"));
            assert_eq!(d.status.as_deref(), Some("PERMISSION_DENIED"));
            assert_eq!(error_description.as_deref(), Some("no"));
        },
        other => panic!("expected an API error, got {:?}", other),
    }
}

#[test]
fn undecodable_bodies_are_json_errors() {
    match decode_response(200, b"not json") {
        Err(Error::JsonError(_)) => {},
        other => panic!("expected a JSON error, got {:?}", other),
    }
    // a non-2xx body that is JSON but no envelope
    match decode_response(500, b"[1,2]") {
        Err(Error::JsonError(_)) => {},
        other => panic!("expected a JSON error, got {:?}", other),
    }
}

#[test]
fn keyring_ttl_subtracts_age_from_max_age() {
    // Cache-Control max-age=3600 with Age 100: expiry is fetch time + 3500
    assert_eq!(mk_expires_at(100, Some(3600), 1_000_000), Some(1_000_000 + 3500));
    // no max-age: no expiry, and such a ring is always expired
    assert_eq!(mk_expires_at(100, None, 1_000_000), None);
    let ring = KeyRing::new(Vec::new(), None);
    assert!(ring.is_expired_at(0));
    assert!(ring.is_expired_at(i64::MAX));
    assert!(ring.is_expired());
}

#[test]
fn cache_control_parsing_finds_the_directive() {
    assert_eq!(cc_max_age(b"max-age=3600"), Some(3600));
    assert_eq!(cc_max_age(b"public, max-age=3600, must-revalidate"), Some(3600));
    assert_eq!(cc_max_age(b"public"), None);
    assert_eq!(cc_max_age(b""), None);
    assert_eq!(cc_max_age(b"max-age=abc"), None);
}

#[test]
fn keyring_lookup_misses_are_unauthorized() {
    let ring = KeyRing::new(
        vec![("kid1".to_string(), PubKey::from_der(vec![1, 2, 3]))],
        Some(10),
    );
    assert!(!ring.is_expired_at(10));
    assert!(ring.is_expired_at(11));
    let hit = ring.get("kid1").expect("present");
    assert_eq!(hit.as_bytes(), &[1, 2, 3]);
    assert!(matches!(ring.get("kid2"), Err(Error::Unauthorized)));
}

#[test]
fn error_kind_names_are_stable() {
    assert_eq!(Error::Unauthorized.kind_name(), "Unauthorized");
    assert_eq!(Error::JsonError(String::new()).kind_name(), "JsonError");
}
