//! JWT signing and verification with real RSA keys.

use tokio_gcp::b64::b64_decode;
use tokio_gcp::json::{json_parse_x, JsonVal};
use tokio_gcp::jwt::{build_assertion, rs256_verify, Claims};

fn test_keypair() -> (Vec<u8>, Vec<u8>) {
    let rsa = openssl::rsa::Rsa::generate(2048).expect("keygen");
    let private_der = rsa.private_key_to_der().expect("private DER");
    let public_der = rsa.public_key_to_der_pkcs1().expect("public DER");
    (private_der, public_der)
}

fn sample_claims() -> Claims {
    Claims {
        iss: "svc@example.iam.gserviceaccount.com".to_string(),
        aud: "https://www.googleapis.com/oauth2/v4/token".to_string(),
        scope: "https://www.googleapis.com/auth/cloud-platform".to_string(),
        iat: 1_700_000_000,
        exp: 1_700_000_000 + 3540,
        sub: None,
    }
}

fn field<'a>(v: &'a JsonVal, k: &[u8]) -> &'a JsonVal {
    match v {
        JsonVal::Obj(ps) => {
            for (name, val) in ps {
                if name.as_slice() == k {
                    return val;
                }
            }
            panic!("member missing");
        },
        _ => panic!("not an object"),
    }
}

fn str_field(v: &JsonVal, k: &[u8]) -> String {
    match field(v, k) {
        JsonVal::Str(t) => String::from_utf8(t.clone()).unwrap(),
        _ => panic!("not a string"),
    }
}

fn num_field(v: &JsonVal, k: &[u8]) -> i64 {
    match field(v, k) {
        JsonVal::Num(t) => String::from_utf8(t.clone()).unwrap().parse().unwrap(),
        _ => panic!("not a number"),
    }
}

#[test]
fn sign_verify_round_trip_recovers_claims() {
    // sign an assertion, verify it with the matching public key, and
    // decode the payload: the claim set comes back identically
    let (private_der, public_der) = test_keypair();
    let claims = sample_claims();
    let token = build_assertion(&claims, &private_der).expect("signing");
    let text = String::from_utf8(token.clone()).unwrap();
    let parts: Vec<&str> = text.split('.').collect();
    assert_eq!(parts.len(), 3);

    let signing_input = format!("{}.{}", parts[0], parts[1]);
    assert!(rs256_verify(parts[2].as_bytes(), signing_input.as_bytes(), &public_der));

    let payload = b64_decode(parts[1].as_bytes(), true, false).expect("payload base64");
    let doc = json_parse_x(&payload).expect("payload JSON");
    assert_eq!(str_field(&doc, b"iss"), claims.iss);
    assert_eq!(str_field(&doc, b"aud"), claims.aud);
    assert_eq!(str_field(&doc, b"scope"), claims.scope);
    assert_eq!(num_field(&doc, b"iat"), claims.iat);
    assert_eq!(num_field(&doc, b"exp"), claims.exp);
    assert_eq!(field(&doc, b"sub"), &JsonVal::Null);
}

#[test]
fn verification_rejects_the_wrong_key() {
    let (private_der, _) = test_keypair();
    let (_, other_public) = test_keypair();
    let claims = sample_claims();
    let token = build_assertion(&claims, &private_der).expect("signing");
    let text = String::from_utf8(token).unwrap();
    let parts: Vec<&str> = text.split('.').collect();
    let signing_input = format!("{}.{}", parts[0], parts[1]);
    assert!(!rs256_verify(parts[2].as_bytes(), signing_input.as_bytes(), &other_public));
}

#[test]
fn verification_rejects_a_tampered_payload() {
    let (private_der, public_der) = test_keypair();
    let claims = sample_claims();
    let token = build_assertion(&claims, &private_der).expect("signing");
    let text = String::from_utf8(token).unwrap();
    let parts: Vec<&str> = text.split('.').collect();
    let mut other = sample_claims();
    other.iss = "intruder@example.com".to_string();
    let forged = build_assertion(&other, &private_der).expect("signing");
    let forged_text = String::from_utf8(forged).unwrap();
    let forged_parts: Vec<&str> = forged_text.split('.').collect();
    // the first token's signature over the forged payload does not verify
    let mixed_input = format!("{}.{}", parts[0], forged_parts[1]);
    assert!(!rs256_verify(parts[2].as_bytes(), mixed_input.as_bytes(), &public_der));
}

#[test]
fn header_names_rs256() {
    let (private_der, _) = test_keypair();
    let token = build_assertion(&sample_claims(), &private_der).expect("signing");
    let text = String::from_utf8(token).unwrap();
    let parts: Vec<&str> = text.split('.').collect();
    let header = b64_decode(parts[0].as_bytes(), true, false).expect("header base64");
    let doc = json_parse_x(&header).expect("header JSON");
    assert_eq!(str_field(&doc, b"alg"), "RS256");
    assert_eq!(str_field(&doc, b"typ"), "JWT");
}

#[test]
fn signing_with_a_bad_key_is_a_credential_failure() {
    let r = build_assertion(&sample_claims(), b"not a key");
    assert_eq!(r, Err(tokio_gcp::client::Error::Unauthorized));
}
