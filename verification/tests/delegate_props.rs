//! The delegation flow end to end, with real keys and certificates.

use std::cell::{Cell, RefCell};

use tokio_gcp::auth::{
    now_unix, service_account_from_key, AuthAdapter, GoogleCloudAuth, ServiceAccountAuth,
};
use tokio_gcp::client::{Error, HttpRequest, RawApi};
use tokio_gcp::json::{json_parse_x, JsonVal};

/// A fake API client with owned canned bodies and a request counter.
struct Canned {
    bodies: RefCell<Vec<String>>,
    headers: Vec<(Vec<u8>, Vec<u8>)>,
    count: Cell<usize>,
}

impl Canned {
    fn new(bodies: Vec<String>, headers: Vec<(Vec<u8>, Vec<u8>)>) -> Canned {
        let mut rev = bodies;
        rev.reverse();
        Canned { bodies: RefCell::new(rev), headers, count: Cell::new(0) }
    }
}

impl RawApi for Canned {
    fn request(&self, _r: HttpRequest) -> Result<(Vec<(Vec<u8>, Vec<u8>)>, JsonVal), Error> {
        self.count.set(self.count.get() + 1);
        let body = self.bodies.borrow_mut().pop().expect("a canned body to be queued");
        let v = json_parse_x(body.as_bytes()).expect("canned body to be JSON");
        Ok((self.headers.clone(), v))
    }
}

/// A fresh RSA key with a self-signed certificate carrying its public
/// half.
fn keypair_with_cert() -> (openssl::rsa::Rsa<openssl::pkey::Private>, String) {
    let rsa = openssl::rsa::Rsa::generate(2048).expect("keygen");
    let pkey = openssl::pkey::PKey::from_rsa(rsa.clone()).expect("pkey");
    let mut builder = openssl::x509::X509Builder::new().expect("builder");
    builder.set_version(2).expect("version");
    let serial = openssl::bn::BigNum::from_u32(1)
        .and_then(|bn| bn.to_asn1_integer())
        .expect("serial");
    builder.set_serial_number(&serial).expect("serial");
    let not_before = openssl::asn1::Asn1Time::days_from_now(0).expect("time");
    builder.set_not_before(&not_before).expect("not before");
    let not_after = openssl::asn1::Asn1Time::days_from_now(1).expect("time");
    builder.set_not_after(&not_after).expect("not after");
    builder.set_pubkey(&pkey).expect("pubkey");
    builder
        .sign(&pkey, openssl::hash::MessageDigest::sha256())
        .expect("self-sign");
    let cert = builder.build();
    let pem = String::from_utf8(cert.to_pem().expect("PEM")).expect("UTF-8");
    (rsa, pem)
}

/// An identity token with an email claim, signed by the given key under
/// the given key id.
fn make_id_token(rsa: &openssl::rsa::Rsa<openssl::pkey::Private>, kid: &str, exp: i64) -> String {
    let header = format!(r#"{{"alg":"RS256","kid":"{}"}}"#, kid);
    let payload = format!(r#"{{"email":"person@example.com","exp":{}}}"#, exp);
    let h = tokio_gcp::b64::b64_encode(header.as_bytes(), true, false);
    let p = tokio_gcp::b64::b64_encode(payload.as_bytes(), true, false);
    let input = format!(
        "{}.{}",
        String::from_utf8(h).unwrap(),
        String::from_utf8(p).unwrap()
    );
    let key = jsonwebtoken::EncodingKey::from_rsa_der(&rsa.private_key_to_der().unwrap());
    let sig = jsonwebtoken::crypto::sign(input.as_bytes(), &key, jsonwebtoken::Algorithm::RS256)
        .expect("signing");
    format!("{}.{}", input, sig)
}

fn escape_pem(pem: &str) -> String {
    pem.replace('\n', "\\n")
}

fn service_adapter(rsa: &openssl::rsa::Rsa<openssl::pkey::Private>) -> AuthAdapter {
    service_account_from_key(
        "svc@example.iam.gserviceaccount.com".to_string(),
        "https://www.googleapis.com/oauth2/v4/token".to_string(),
        rsa.private_key_to_pem().unwrap().as_slice(),
    )
    .expect("key to convert")
}

#[test]
fn key_conversion_matches_openssl() {
    // the adapter holds exactly the DER that openssl derives from the PEM
    let rsa = openssl::rsa::Rsa::generate(2048).expect("keygen");
    match service_adapter(&rsa) {
        AuthAdapter::ServiceAccount(ServiceAccountAuth { meta }) => {
            assert_eq!(meta.private_key_der, rsa.private_key_to_der().unwrap());
            assert_eq!(meta.aud, meta.token_uri);
        },
        _ => panic!("expected a service account"),
    }
}

#[test]
fn delegate_exchanges_a_verified_identity() {
    // a token signed by a key the ring publishes: delegation verifies it
    // and redeems an assertion for the delegated subject
    let (rsa, cert_pem) = keypair_with_cert();
    let auth = GoogleCloudAuth::new(service_adapter(&rsa));
    let ring_body = format!(r#"{{"kid1":"{}"}}"#, escape_pem(&cert_pem));
    let grant_body =
        r#"{"access_token":"delegated-token","token_type":"Bearer","expires_in":3600}"#.to_string();
    let client = Canned::new(
        vec![ring_body, grant_body],
        vec![(b"cache-control".to_vec(), b"max-age=3600".to_vec())],
    );
    let id_token = make_id_token(&rsa, "kid1", now_unix() + 3600);
    let t = auth.delegate(&client, &id_token, &["s".to_string()]).expect("delegation");
    assert_eq!(t.access_token, "delegated-token");
    // one key-ring fetch and one grant
    assert_eq!(client.count.get(), 2);
}

#[test]
fn delegate_rejects_an_expired_identity() {
    // the same flow with an expiry past the sixty-second leeway
    let (rsa, cert_pem) = keypair_with_cert();
    let auth = GoogleCloudAuth::new(service_adapter(&rsa));
    let ring_body = format!(r#"{{"kid1":"{}"}}"#, escape_pem(&cert_pem));
    let client = Canned::new(
        vec![ring_body],
        vec![(b"cache-control".to_vec(), b"max-age=3600".to_vec())],
    );
    let id_token = make_id_token(&rsa, "kid1", now_unix() - 61);
    let r = auth.delegate(&client, &id_token, &["s".to_string()]);
    assert!(matches!(r, Err(Error::Unauthorized)));
}

#[test]
fn delegate_rejects_a_foreign_signature() {
    // the ring's key differs from the signing key: verification fails
    let (ring_rsa, cert_pem) = keypair_with_cert();
    let (other_rsa, _) = keypair_with_cert();
    let auth = GoogleCloudAuth::new(service_adapter(&ring_rsa));
    let ring_body = format!(r#"{{"kid1":"{}"}}"#, escape_pem(&cert_pem));
    let client = Canned::new(
        vec![ring_body],
        vec![(b"cache-control".to_vec(), b"max-age=3600".to_vec())],
    );
    let id_token = make_id_token(&other_rsa, "kid1", now_unix() + 3600);
    let r = auth.delegate(&client, &id_token, &["s".to_string()]);
    assert!(matches!(r, Err(Error::Unauthorized)));
}

#[test]
fn unreadable_certificates_are_certificate_errors() {
    // a ring whose member is not a PEM certificate surfaces the converter's
    // failure, not a credential failure
    let (rsa, _) = keypair_with_cert();
    let auth = GoogleCloudAuth::new(service_adapter(&rsa));
    let client = Canned::new(
        vec![r#"{"kid1":"not a certificate"}"#.to_string()],
        vec![(b"cache-control".to_vec(), b"max-age=3600".to_vec())],
    );
    let id_token = make_id_token(&rsa, "kid1", now_unix() + 3600);
    let r = auth.delegate(&client, &id_token, &["s".to_string()]);
    assert!(matches!(r, Err(Error::OpenSslError(_))));
}
