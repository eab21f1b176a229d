//! Base64 behavior, cross-checked against the base64 crate.

use base64::Engine;
use tokio_gcp::b64::{b64_decode, b64_encode};

fn std_encode(data: &[u8]) -> Vec<u8> {
    b64_encode(data, false, true)
}

fn url_encode(data: &[u8]) -> Vec<u8> {
    b64_encode(data, true, false)
}

#[test]
fn b64_std_matches_reference_crate() {
    let samples: Vec<Vec<u8>> = vec![
        b"".to_vec(),
        b"f".to_vec(),
        b"fo".to_vec(),
        b"foo".to_vec(),
        b"foob".to_vec(),
        b"fooba".to_vec(),
        b"foobar".to_vec(),
        (0u8..=255).collect(),
    ];
    for s in &samples {
        let mine = String::from_utf8(std_encode(s)).unwrap();
        let theirs = base64::engine::general_purpose::STANDARD.encode(s);
        assert_eq!(mine, theirs);
    }
}

#[test]
fn b64_url_matches_reference_crate() {
    let samples: Vec<Vec<u8>> = vec![b"".to_vec(), b"\xfb\xef\xff".to_vec(), (0u8..=255).collect()];
    for s in &samples {
        let mine = String::from_utf8(url_encode(s)).unwrap();
        let theirs = base64::engine::general_purpose::URL_SAFE_NO_PAD.encode(s);
        assert_eq!(mine, theirs);
    }
}

#[test]
fn b64_round_trips() {
    let data: Vec<u8> = (0u8..=255).collect();
    assert_eq!(b64_decode(&std_encode(&data), false, true), Some(data.clone()));
    assert_eq!(b64_decode(&url_encode(&data), true, false), Some(data));
}

#[test]
fn b64_decode_is_strict() {
    // non-canonical trailing bits
    assert_eq!(b64_decode(b"AB==", false, true), None);
    assert_eq!(b64_decode(b"AQ==", false, true), Some(vec![1u8]));
    // missing padding in the padded alphabet
    assert_eq!(b64_decode(b"AQ", false, true), None);
    // padding in the unpadded alphabet
    assert_eq!(b64_decode(b"AQ==", true, false), None);
    assert_eq!(b64_decode(b"AQ", true, false), Some(vec![1u8]));
    // a byte outside the alphabet
    assert_eq!(b64_decode(b"A.Q=", false, true), None);
}
