//! The credential core's laws, exercised through a counting fake client.

use std::cell::{Cell, RefCell};

use tokio_gcp::auth::{
    ApplicationDefaultAuth, AuthAdapter, GoogleCloudAuth, ServiceAccountAuth, ServiceAccountMeta,
    Token, token_with_expiry,
};
use tokio_gcp::client::{Error, HttpRequest, RawApi};
use tokio_gcp::json::{json_parse_x, JsonVal};

/// A fake API client: answers every request with the next canned body and
/// counts how many requests it saw.
struct CannedClient {
    bodies: RefCell<Vec<&'static str>>,
    headers: Vec<(Vec<u8>, Vec<u8>)>,
    count: Cell<usize>,
}

impl CannedClient {
    fn new(bodies: Vec<&'static str>) -> CannedClient {
        let mut rev = bodies;
        rev.reverse();
        CannedClient { bodies: RefCell::new(rev), headers: Vec::new(), count: Cell::new(0) }
    }

    fn with_headers(mut self, headers: Vec<(Vec<u8>, Vec<u8>)>) -> CannedClient {
        self.headers = headers;
        self
    }
}

impl RawApi for CannedClient {
    fn request(&self, _r: HttpRequest) -> Result<(Vec<(Vec<u8>, Vec<u8>)>, JsonVal), Error> {
        self.count.set(self.count.get() + 1);
        let body = self.bodies.borrow_mut().pop().expect("a canned body to be queued");
        let v = json_parse_x(body.as_bytes()).expect("canned body to be JSON");
        Ok((self.headers.clone(), v))
    }
}

fn app_default_adapter() -> AuthAdapter {
    AuthAdapter::ApplicationDefault(ApplicationDefaultAuth {
        client_id: "cid".to_string(),
        client_secret: "SECRET-REDACTED".to_string(),
        refresh_token: "rtok".to_string(),
    })
}

fn service_account_adapter() -> AuthAdapter {
    AuthAdapter::ServiceAccount(ServiceAccountAuth {
        meta: ServiceAccountMeta {
            aud: "https://www.googleapis.com/oauth2/v4/token".to_string(),
            token_uri: "https://www.googleapis.com/oauth2/v4/token".to_string(),
            client_email: "svc@example.iam.gserviceaccount.com".to_string(),
            private_key_der: Vec::new(),
        },
    })
}

const LONG_TOKEN: &str = r#"{"access_token":"tok-long","token_type":"Bearer","expires_in":3600}"#;
const LONG_TOKEN_2: &str = r#"{"access_token":"tok-two","token_type":"Bearer","expires_in":3600}"#;
const LONG_TOKEN_3: &str = r#"{"access_token":"tok-three","token_type":"Bearer","expires_in":3600}"#;
const SHORT_TOKEN: &str = r#"{"access_token":"tok-short","token_type":"Bearer","expires_in":59}"#;

fn scopes(names: &[&str]) -> Vec<String> {
    names.iter().map(|s| s.to_string()).collect()
}

#[test]
fn repeated_same_scopes_refresh_once() {
    // an initially empty cache and several identical requests: exactly one
    // underlying refresh, every caller seeing the same access token
    let auth = GoogleCloudAuth::new(app_default_adapter());
    let client = CannedClient::new(vec![LONG_TOKEN]);
    let s = scopes(&["a", "b"]);
    let mut seen: Vec<String> = Vec::new();
    for _ in 0..5 {
        let t = auth.token(&client, &s).expect("token");
        seen.push(t.access_token);
    }
    assert_eq!(client.count.get(), 1);
    assert!(seen.iter().all(|t| t == "tok-long"));
}

#[test]
fn different_scopes_evict_the_single_slot() {
    // S1, then S2, then S1 again: the second request evicts the first, so
    // the third is a fresh refresh, not a stale hit
    let auth = GoogleCloudAuth::new(app_default_adapter());
    let client = CannedClient::new(vec![LONG_TOKEN, LONG_TOKEN_2, LONG_TOKEN_3]);
    let s1 = scopes(&["one"]);
    let s2 = scopes(&["two"]);
    let t1 = auth.token(&client, &s1).expect("token");
    assert_eq!(t1.access_token, "tok-long");
    let t2 = auth.token(&client, &s2).expect("token");
    assert_eq!(t2.access_token, "tok-two");
    let t3 = auth.token(&client, &s1).expect("token");
    assert_eq!(t3.access_token, "tok-three");
    assert_eq!(client.count.get(), 3);
    // and S1 is cached again now
    let t4 = auth.token(&client, &s1).expect("token");
    assert_eq!(t4.access_token, "tok-three");
    assert_eq!(client.count.get(), 3);
}

#[test]
fn scope_order_matters() {
    // scope lists are compared as ordered sequences, not as sets
    let auth = GoogleCloudAuth::new(app_default_adapter());
    let client = CannedClient::new(vec![LONG_TOKEN, LONG_TOKEN_2]);
    let _ = auth.token(&client, &scopes(&["a", "b"])).expect("token");
    let _ = auth.token(&client, &scopes(&["b", "a"])).expect("token");
    assert_eq!(client.count.get(), 2);
}

#[test]
fn expired_token_is_never_served() {
    // a lifetime under the safety margin puts the expiry in the past, so
    // the next request must refresh instead of serving the stale slot
    let auth = GoogleCloudAuth::new(app_default_adapter());
    let client = CannedClient::new(vec![SHORT_TOKEN, LONG_TOKEN]);
    let s = scopes(&["a"]);
    let t1 = auth.token(&client, &s).expect("token");
    assert_eq!(t1.access_token, "tok-short");
    let t2 = auth.token(&client, &s).expect("token");
    assert_eq!(t2.access_token, "tok-long");
    assert_eq!(client.count.get(), 2);
}

#[test]
fn expiry_is_issue_time_plus_lifetime_less_margin() {
    let t = Token {
        access_token: "t".to_string(),
        token_type: "Bearer".to_string(),
        expires_in: 3600,
        expires_at: None,
    };
    let stamped = token_with_expiry(t, 1_000_000).expect("in range");
    assert_eq!(stamped.expires_at, Some(1_000_000 + 3600 - 60));

    // the boundary: a sixty-second lifetime expires at its issue instant
    let t = Token {
        access_token: "t".to_string(),
        token_type: "Bearer".to_string(),
        expires_in: 60,
        expires_at: None,
    };
    let stamped = token_with_expiry(t, 1_000_000).expect("in range");
    assert_eq!(stamped.expires_at, Some(1_000_000));
    assert!(!stamped.is_expired_at(1_000_000));
    assert!(stamped.is_expired_at(1_000_001));
}

#[test]
fn absent_expiry_counts_as_expired() {
    let t = Token {
        access_token: "t".to_string(),
        token_type: "Bearer".to_string(),
        expires_in: 3600,
        expires_at: None,
    };
    assert!(t.is_expired_at(0));
    assert!(t.is_expired());
}

#[test]
fn delegate_fails_unauthorized_for_application_default() {
    // user-scoped credentials can never delegate, whatever the token
    let auth = GoogleCloudAuth::new(app_default_adapter());
    let client = CannedClient::new(vec![]);
    let header = tokio_gcp::b64::b64_encode(br#"{"alg":"RS256","kid":"k1"}"#, true, false);
    let id_token = format!("{}.e30.c2ln", String::from_utf8(header).unwrap());
    let r = auth.delegate(&client, &id_token, &scopes(&["s"]));
    assert!(matches!(r, Err(Error::Unauthorized)));
    assert_eq!(client.count.get(), 0);
}

#[test]
fn delegate_with_unknown_key_id_fails_without_retry() {
    // a well-formed token whose key id is absent from the freshly fetched
    // ring: unauthorized after exactly one fetch, no second try
    let auth = GoogleCloudAuth::new(service_account_adapter());
    let client = CannedClient::new(vec!["{}"]).with_headers(vec![(
        b"cache-control".to_vec(),
        b"max-age=3600".to_vec(),
    )]);
    let header = tokio_gcp::b64::b64_encode(br#"{"alg":"RS256","kid":"absent"}"#, true, false);
    let id_token = format!("{}.e30.c2ln", String::from_utf8(header).unwrap());
    let r = auth.delegate(&client, &id_token, &scopes(&["s"]));
    assert!(matches!(r, Err(Error::Unauthorized)));
    assert_eq!(client.count.get(), 1);
    // the ring is cached and unexpired: a second attempt does not refetch
    let r2 = auth.delegate(&client, &id_token, &scopes(&["s"]));
    assert!(matches!(r2, Err(Error::Unauthorized)));
    assert_eq!(client.count.get(), 1);
}

#[test]
fn delegate_with_malformed_header_fails_unauthorized() {
    let auth = GoogleCloudAuth::new(service_account_adapter());
    let client = CannedClient::new(vec![]);
    let r = auth.delegate(&client, "not-a-jwt", &scopes(&["s"]));
    assert!(matches!(r, Err(Error::Unauthorized)));
    // a header without a kid is just as unauthorized
    let header = tokio_gcp::b64::b64_encode(br#"{"alg":"RS256"}"#, true, false);
    let id_token = format!("{}.e30.c2ln", String::from_utf8(header).unwrap());
    let r = auth.delegate(&client, &id_token, &scopes(&["s"]));
    assert!(matches!(r, Err(Error::Unauthorized)));
    assert_eq!(client.count.get(), 0);
}

#[test]
fn into_header_carries_the_bearer_prefix() {
    let t = Token {
        access_token: "abc".to_string(),
        token_type: "Bearer".to_string(),
        expires_in: 1,
        expires_at: None,
    };
    assert_eq!(t.into_header(), "Bearer abc");
}

