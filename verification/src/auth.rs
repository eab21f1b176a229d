//! Credentials: the bearer token, the two credential adapters, the
//! scope-keyed token cache and the delegation flow.
//!
//! The caches use a reader/writer lock with the double-checked pattern:
//! a shared-lock read on the fast path, then an exclusive-lock re-check
//! before refreshing over the network, so refreshes are serialized and a
//! thread that lost the race reuses the winner's token.

use vstd::prelude::*;
use vstd::rwlock::RwLock;

use crate::client::{
    RawApi, Error, HttpMethod, HttpRequest, encode_form_params, form_string, pair_views,
    form_content_type, content_type_name,
};
use crate::json::{
    JVal, JsonVal, obj_get, get_field, as_str, as_i64, bytes_to_string, bytes_clone,
};
use crate::num::i64_dec;
use vstd::utf8::{valid_utf8, decode_utf8, encode_utf8};
use vstd::string::{StrSliceExecFns, StringExecFns};

pub mod gcert;

pub use gcert::PubKey;
use gcert::KeyRingType;

verus! {

/// A bearer token: the opaque access token, its type, the lifetime the
/// server granted, and the locally computed expiry instant.
#[derive(Debug, Clone, PartialEq)]
pub struct Token {
    pub access_token: String,
    pub token_type: String,
    /// Seconds of validity, as returned by the server.
    pub expires_in: i64,
    /// Unix time after which the token is treated as expired; absent until
    /// computed, and an absent value counts as already expired.
    pub expires_at: Option<i64>,
}

/// Whether a token is expired at `now`: it is when no expiry was computed,
/// or when `now` has passed the computed one.
pub open spec fn token_expired_at(t: Token, now: int) -> bool {
    match t.expires_at {
        None => true,
        Some(at) => now > at,
    }
}

impl Token {
    /// Whether this token is expired at `now`.
    pub fn is_expired_at(&self, now: i64) -> (r: bool)
        ensures
            r == token_expired_at(*self, now as int),
    {
        match self.expires_at {
            None => true,
            Some(at) => now > at,
        }
    }

    /// Whether this token is expired at the current wall-clock time.
    pub fn is_expired(&self) -> (r: bool)
        ensures
            self.expires_at is None ==> r,
            exists|now: i64| r == token_expired_at(*self, now as int),
    {
        let now = now_unix();
        self.is_expired_at(now)
    }

    /// The `Authorization` header value carrying this token.
    pub fn into_header(self) -> (r: String)
        ensures
            r@ == "Bearer "@ + self.access_token@,
    {
        let mut h = String::from_str("Bearer ");
        h.append(self.access_token.as_str());
        h
    }

    /// The `Authorization` header value, as bytes.
    pub fn header_value_bytes(&self) -> (r: Vec<u8>)
        ensures
            r@ == encode_utf8("Bearer "@ + self.access_token@),
    {
        let h = self.duplicate().into_header();
        h.as_str().as_bytes_vec()
    }

    /// An equal copy of this token.
    pub fn duplicate(&self) -> (r: Token)
        ensures
            r == *self,
    {
        Token {
            access_token: self.access_token.clone(),
            token_type: self.token_type.clone(),
            expires_in: self.expires_in,
            expires_at: self.expires_at,
        }
    }

    /// The token a fresh cache slot holds: empty and always expired.
    pub fn placeholder() -> (r: Token)
        ensures
            r.expires_at is None,
    {
        Token {
            access_token: String::new(),
            token_type: String::new(),
            expires_in: 0,
            expires_at: None,
        }
    }
}

/// Relies on chrono's `Utc::now` and `DateTime::timestamp`: the current
/// Unix time in seconds. chrono documents its representable range as about
/// ±262,000 years, so the value fits well within 2^53 seconds either way.
/// `Utc::now` itself assumes a system clock at or after the Unix epoch and
/// panics on one set earlier; this wrapper inherits that assumption.
#[verifier::external_body]
pub fn now_unix() -> (r: i64)
    ensures
        -0x20000000000000 < r < 0x20000000000000,
{
    chrono::Utc::now().timestamp()
}

/// The sixty-second safety margin taken off every token lifetime.
pub open spec fn spec_expiry(now: int, expires_in: int) -> int {
    now + expires_in - 60
}

/// Stamps a freshly granted token: its expiry becomes the issue time plus
/// its lifetime, less the sixty-second safety margin. A lifetime so large
/// that the sum leaves `i64` is rejected as a malformed response.
pub fn token_with_expiry(t: Token, now: i64) -> (r: Result<Token, Error>)
    ensures
        match r {
            Ok(t2) => i64::MIN <= spec_expiry(now as int, t.expires_in as int) <= i64::MAX
                && t2.expires_at == Some((spec_expiry(now as int, t.expires_in as int)) as i64)
                && t2.access_token == t.access_token && t2.token_type == t.token_type
                && t2.expires_in == t.expires_in,
            Err(e) => e matches Error::JsonError(_) && !(i64::MIN <= spec_expiry(
                now as int,
                t.expires_in as int,
            ) <= i64::MAX),
        },
{
    let wide: i128 = now as i128 + t.expires_in as i128 - 60;
    if wide < i64::MIN as i128 || wide > i64::MAX as i128 {
        return Err(Error::JsonError(expiry_range_text()));
    }
    Ok(
        Token {
            access_token: t.access_token,
            token_type: t.token_type,
            expires_in: t.expires_in,
            expires_at: Some(wide as i64),
        },
    )
}

/// The message attached to a lifetime that leaves the representable range.
fn expiry_range_text() -> String {
    String::from_str("token lifetime leaves the representable range")
}

/// The member name `access_token`.
pub open spec fn k_access_token() -> Seq<u8> {
    seq![97u8, 99u8, 99u8, 101u8, 115u8, 115u8, 95u8, 116u8, 111u8, 107u8, 101u8, 110u8]
}

/// The member name `token_type`.
pub open spec fn k_token_type() -> Seq<u8> {
    seq![116u8, 111u8, 107u8, 101u8, 110u8, 95u8, 116u8, 121u8, 112u8, 101u8]
}

/// The member name `expires_in`.
pub open spec fn k_expires_in() -> Seq<u8> {
    seq![101u8, 120u8, 112u8, 105u8, 114u8, 101u8, 115u8, 95u8, 105u8, 110u8]
}

/// The shape a document must have to decode as a token grant: the three
/// members present, the two strings valid UTF-8, the lifetime a canonical
/// decimal.
pub open spec fn token_shape(v: JVal) -> bool {
    &&& (obj_get(v, k_access_token()) matches Some(JVal::Str(t)) && valid_utf8(t))
    &&& (obj_get(v, k_token_type()) matches Some(JVal::Str(t)) && valid_utf8(t))
    &&& (exists|n: i64| obj_get(v, k_expires_in()) == Some(JVal::Num(i64_dec(n as int))))
}

/// How a decoded token relates to its document; the expiry is not yet
/// computed.
pub open spec fn token_match(v: JVal, t: Token) -> bool {
    &&& (obj_get(v, k_access_token()) matches Some(JVal::Str(b)) && t.access_token@
        == decode_utf8(b))
    &&& (obj_get(v, k_token_type()) matches Some(JVal::Str(b)) && t.token_type@ == decode_utf8(b))
    &&& obj_get(v, k_expires_in()) == Some(JVal::Num(i64_dec(t.expires_in as int)))
    &&& t.expires_at is None
}

/// Decodes a token grant; a missing or ill-typed member is a JSON error.
pub fn token_from_json(v: &JsonVal) -> (r: Result<Token, Error>)
    ensures
        match r {
            Ok(t) => token_shape(v@) && token_match(v@, t),
            Err(e) => e matches Error::JsonError(_) && !token_shape(v@),
        },
{
    let at_k: Vec<u8> = vec![97u8, 99, 99, 101, 115, 115, 95, 116, 111, 107, 101, 110];
    let tt_k: Vec<u8> = vec![116u8, 111, 107, 101, 110, 95, 116, 121, 112, 101];
    let ei_k: Vec<u8> = vec![101u8, 120, 112, 105, 114, 101, 115, 95, 105, 110];
    proof {
        assert(at_k@ =~= k_access_token());
        assert(tt_k@ =~= k_token_type());
        assert(ei_k@ =~= k_expires_in());
    }
    let access_token: String = match get_field(v, at_k.as_slice()) {
        Some(f) => match f {
            JsonVal::Str(t) => match bytes_to_string(bytes_clone(t)) {
                Ok(s) => s,
                Err(_) => {
                    return Err(Error::JsonError(token_shape_text()));
                },
            },
            _ => {
                return Err(Error::JsonError(token_shape_text()));
            },
        },
        None => {
            return Err(Error::JsonError(token_shape_text()));
        },
    };
    let token_type: String = match get_field(v, tt_k.as_slice()) {
        Some(f) => match f {
            JsonVal::Str(t) => match bytes_to_string(bytes_clone(t)) {
                Ok(s) => s,
                Err(_) => {
                    return Err(Error::JsonError(token_shape_text()));
                },
            },
            _ => {
                return Err(Error::JsonError(token_shape_text()));
            },
        },
        None => {
            return Err(Error::JsonError(token_shape_text()));
        },
    };
    let expires_in: i64 = match get_field(v, ei_k.as_slice()) {
        Some(f) => match as_i64(f) {
            Some(n) => n,
            None => {
                return Err(Error::JsonError(token_shape_text()));
            },
        },
        None => {
            return Err(Error::JsonError(token_shape_text()));
        },
    };
    Ok(Token { access_token, token_type, expires_in, expires_at: None })
}

/// The message attached to a grant of the wrong shape.
fn token_shape_text() -> String {
    String::from_str("token grant has an unexpected shape")
}

// ---------------------------------------------------------------------------
// Scope lists
// ---------------------------------------------------------------------------
/// The scope texts of a scope list.
pub open spec fn scope_views(xs: Seq<String>) -> Seq<Seq<char>> {
    xs.map_values(|s: String| s@)
}

/// Whether two scope lists are the same ordered sequence of texts.
pub open spec fn scopes_equal(a: Seq<String>, b: Seq<String>) -> bool {
    scope_views(a) == scope_views(b)
}

/// Ordered, exact equality of two scope lists.
pub fn scopes_eq(a: &[String], b: &[String]) -> (r: bool)
    ensures
        r == scopes_equal(a@, b@),
{
    if a.len() != b.len() {
        proof {
            assert(scope_views(a@).len() == a@.len());
            assert(scope_views(b@).len() == b@.len());
        }
        return false;
    }
    let mut k: usize = 0;
    while k < a.len()
        invariant
            k <= a.len() == b.len(),
            forall|i: int| 0 <= i < k ==> a@[i]@ == b@[i]@,
        decreases a.len() - k,
    {
        if !(a[k] == b[k]) {
            proof {
                assert(scope_views(a@)[k as int] == a@[k as int]@);
                assert(scope_views(b@)[k as int] == b@[k as int]@);
            }
            return false;
        }
        k += 1;
    }
    proof {
        assert(scope_views(a@) =~= scope_views(b@));
    }
    true
}

/// A copy of a scope list.
pub fn scopes_clone(xs: &[String]) -> (r: Vec<String>)
    ensures
        r@.len() == xs@.len(),
        forall|i: int| 0 <= i < xs@.len() ==> #[trigger] r@[i] == xs@[i],
        scopes_equal(r@, xs@),
{
    let mut r: Vec<String> = Vec::new();
    let mut k: usize = 0;
    while k < xs.len()
        invariant
            k <= xs.len(),
            r@.len() == k,
            forall|i: int| 0 <= i < k ==> #[trigger] r@[i] == xs@[i],
        decreases xs.len() - k,
    {
        r.push(xs[k].clone());
        k += 1;
    }
    proof {
        assert(scope_views(r@) =~= scope_views(xs@));
    }
    r
}

/// The space-joined text of a scope list.
pub open spec fn joined_scopes(xs: Seq<Seq<char>>) -> Seq<char>
    decreases xs.len(),
{
    if xs.len() == 0 {
        Seq::empty()
    } else if xs.len() == 1 {
        xs[0]
    } else {
        xs[0] + " "@ + joined_scopes(xs.subrange(1, xs.len() as int))
    }
}

/// The scope every grant falls back to when none is requested.
pub open spec fn default_scope_text() -> Seq<char> {
    "https://www.googleapis.com/auth/cloud-platform"@
}

/// Joins scopes with single spaces; an empty list becomes the fixed
/// default scope.
pub fn join_scopes(xs: &[String]) -> (r: String)
    ensures
        xs@.len() == 0 ==> r@ == default_scope_text(),
        xs@.len() > 0 ==> r@ == joined_scopes(scope_views(xs@)),
{
    if xs.len() == 0 {
        return String::from_str("https://www.googleapis.com/auth/cloud-platform");
    }
    let mut r = String::new();
    let mut k: usize = 0;
    while k < xs.len()
        invariant
            k <= xs.len(),
            xs@.len() > 0,
            k > 0 ==> r@ == joined_scopes(scope_views(xs@.take(k as int))) + (if k < xs@.len() {
                " "@
            } else {
                Seq::<char>::empty()
            }),
            k == 0 ==> r@ == Seq::<char>::empty(),
        decreases xs.len() - k,
    {
        r.append(xs[k].as_str());
        proof {
            lemma_joined_snoc(scope_views(xs@.take(k as int)), xs@[k as int]@);
            assert(scope_views(xs@.take(k as int)).push(xs@[k as int]@) =~= scope_views(
                xs@.take(k as int + 1),
            ));
            assert(scope_views(xs@.take(k as int)).len() == k);
        }
        k += 1;
        if k < xs.len() {
            r.append(" ");
        }
    }
    proof {
        assert(xs@.take(xs@.len() as int) =~= xs@);
    }
    r
}

/// The joined text grows by a space and the new scope.
proof fn lemma_joined_snoc(p: Seq<Seq<char>>, x: Seq<char>)
    ensures
        p.len() == 0 ==> joined_scopes(p.push(x)) == x,
        p.len() > 0 ==> joined_scopes(p.push(x)) == joined_scopes(p) + " "@ + x,
    decreases p.len(),
{
    if p.len() == 0 {
        assert(p.push(x)[0] == x);
    } else {
        assert(p.push(x)[0] == p[0]);
        assert(p.push(x).subrange(1, p.len() as int + 1) =~= p.subrange(1, p.len() as int).push(x));
        lemma_joined_snoc(p.subrange(1, p.len() as int), x);
        if p.len() == 1 {
            assert(joined_scopes(p) =~= p[0]);
            assert(joined_scopes(p.push(x)) =~= joined_scopes(p) + " "@ + x);
        } else {
            assert(joined_scopes(p.push(x)) =~= joined_scopes(p) + " "@ + x);
        }
    }
}

// ---------------------------------------------------------------------------
// The cache laws
// ---------------------------------------------------------------------------
/// Whether a cache slot answers a request: its token must not be expired
/// at `now` and its scope list must equal the requested one exactly, as an
/// ordered sequence.
pub open spec fn cache_hit(
    cached: Token,
    cached_scopes: Seq<Seq<char>>,
    requested: Seq<Seq<char>>,
    now: int,
) -> bool {
    !token_expired_at(cached, now) && cached_scopes == requested
}

/// Requesting one scope list then a different one evicts the first: the
/// single slot then holds the second list, so the first can no longer hit
/// and must refresh anew, whatever token the slot holds and whenever it is
/// asked.
pub proof fn lemma_scope_eviction(
    stored: Token,
    s1: Seq<Seq<char>>,
    s2: Seq<Seq<char>>,
    now: int,
)
    requires
        s1 != s2,
    ensures
        !cache_hit(stored, s2, s1, now),
{
}

/// A token expired at `now` is never served from the cache at `now`,
/// whatever scopes are cached or requested: the hit test fails and the
/// caller refreshes first.
pub proof fn lemma_expired_never_served(
    cached: Token,
    cached_scopes: Seq<Seq<char>>,
    requested: Seq<Seq<char>>,
    now: int,
)
    requires
        token_expired_at(cached, now),
    ensures
        !cache_hit(cached, cached_scopes, requested, now),
{
}

/// The boundary of the safety margin: a sixty-second lifetime expires at
/// its own issue instant — one second later the token is already stale.
pub proof fn lemma_expiry_boundary(t: Token, now: int)
    requires
        t.expires_in == 60,
    ensures
        spec_expiry(now, t.expires_in as int) == now,
{
}

} // verus!

verus! {

/// The application-default (user-authorized) credential: a stored OAuth2
/// refresh credential.
#[derive(Debug, Clone)]
pub struct ApplicationDefaultAuth {
    pub client_id: String,
    pub client_secret: String,
    pub refresh_token: String,
}

impl ApplicationDefaultAuth {
    /// Redeems the refresh credential for a fresh token at the fixed
    /// token endpoint.
    pub fn refresh_token<C: RawApi>(&self, client: &C, _scopes: &[String]) -> (r: Result<
        Token,
        Error,
    >)
        ensures
            r matches Ok(t) ==> exists|doc: JVal| #[trigger] token_match(doc, t) && token_shape(
                doc,
            ),
    {
        let mut pairs: Vec<(Vec<u8>, Vec<u8>)> = Vec::new();
        pairs.push((("client_id").as_bytes_vec(), self.client_id.as_str().as_bytes_vec()));
        pairs.push((("client_secret").as_bytes_vec(), self.client_secret.as_str().as_bytes_vec()));
        pairs.push((("refresh_token").as_bytes_vec(), self.refresh_token.as_str().as_bytes_vec()));
        pairs.push((("grant_type").as_bytes_vec(), ("refresh_token").as_bytes_vec()));
        let body = encode_form_params(&pairs);
        let mut headers: Vec<(Vec<u8>, Vec<u8>)> = Vec::new();
        headers.push((content_type_name(), form_content_type()));
        let req = HttpRequest {
            method: HttpMethod::Post,
            uri: ("https://www.googleapis.com/oauth2/v4/token").as_bytes_vec(),
            headers,
            body,
        };
        let (_h, v) = match client.request(req) {
            Ok(p) => p,
            Err(e) => {
                return Err(e);
            },
        };
        match token_from_json(&v) {
            Ok(t) => {
                proof {
                    assert(token_match(v@, t) && token_shape(v@));
                }
                Ok(t)
            },
            Err(e) => Err(e),
        }
    }
}

/// The service-account credential: the account's email, the token
/// endpoint, the audience text and the RSA private key in DER form.
#[derive(Debug, Clone)]
pub struct ServiceAccountMeta {
    /// The audience named in assertions: the token endpoint's URI text.
    pub aud: String,
    /// The token endpoint requests go to.
    pub token_uri: String,
    pub client_email: String,
    pub private_key_der: Vec<u8>,
}

/// A credential that signs JWT-bearer assertions with a service account's
/// private key.
#[derive(Debug, Clone)]
pub struct ServiceAccountAuth {
    pub meta: ServiceAccountMeta,
}

impl ServiceAccountAuth {
    /// Signs an assertion for the requested scopes (and the delegated
    /// subject, if any) and redeems it at the account's token endpoint.
    pub fn fetch_token<C: RawApi>(
        &self,
        client: &C,
        sub: Option<&str>,
        scopes: &[String],
    ) -> (r: Result<Token, Error>)
        ensures
            r matches Ok(t) ==> exists|doc: JVal| #[trigger] token_match(doc, t) && token_shape(
                doc,
            ),
    {
        let iat = now_unix();
        let claims = crate::jwt::grant_claims(
            self.meta.client_email.clone(),
            self.meta.aud.clone(),
            join_scopes(scopes),
            iat,
            match sub {
                Some(s) => Some(String::from_str(s)),
                None => None,
            },
        );
        let assertion = match crate::jwt::build_assertion(
            &claims,
            self.meta.private_key_der.as_slice(),
        ) {
            Ok(a) => a,
            Err(e) => {
                return Err(e);
            },
        };
        let mut pairs: Vec<(Vec<u8>, Vec<u8>)> = Vec::new();
        pairs.push((("assertion").as_bytes_vec(), assertion));
        pairs.push((
            ("grant_type").as_bytes_vec(),
            ("urn:ietf:params:oauth:grant-type:jwt-bearer").as_bytes_vec(),
        ));
        let body = encode_form_params(&pairs);
        let mut headers: Vec<(Vec<u8>, Vec<u8>)> = Vec::new();
        headers.push((content_type_name(), form_content_type()));
        let req = HttpRequest {
            method: HttpMethod::Post,
            uri: self.meta.token_uri.as_str().as_bytes_vec(),
            headers,
            body,
        };
        let (_h, v) = match client.request(req) {
            Ok(p) => p,
            Err(e) => {
                return Err(e);
            },
        };
        match token_from_json(&v) {
            Ok(t) => {
                proof {
                    assert(token_match(v@, t) && token_shape(v@));
                }
                Ok(t)
            },
            Err(e) => Err(e),
        }
    }
}

/// The closed sum of the two credential kinds, each knowing how to
/// produce a fresh token.
#[derive(Debug, Clone)]
pub enum AuthAdapter {
    ServiceAccount(ServiceAccountAuth),
    ApplicationDefault(ApplicationDefaultAuth),
}

impl AuthAdapter {
    /// One fresh token from whichever grant flow this credential uses.
    pub fn refresh_token<C: RawApi>(&self, client: &C, scopes: &[String]) -> (r: Result<
        Token,
        Error,
    >)
        ensures
            r matches Ok(t) ==> exists|doc: JVal| #[trigger] token_match(doc, t) && token_shape(
                doc,
            ),
    {
        match self {
            AuthAdapter::ServiceAccount(auth) => auth.fetch_token(client, None, scopes),
            AuthAdapter::ApplicationDefault(auth) => auth.refresh_token(client, scopes),
        }
    }
}

/// The token cache's single slot: the token and the scopes it was issued
/// for.
pub struct TokenCacheEntry {
    pub token: Token,
    pub scopes: Vec<String>,
}

/// The per-issuer slots of the key-ring cache.
pub struct KeyRingSlots {
    pub google_auth: Option<gcert::KeyRing>,
    pub firebase: Option<gcert::KeyRing>,
}

/// Whether every ring a cache slot holds could have come out of a fetch:
/// the key-ring lock's invariant.
pub open spec fn slots_inv(k: KeyRingSlots) -> bool {
    &&& (k.google_auth matches Some(r) ==> gcert::ring_ok(r))
    &&& (k.firebase matches Some(r) ==> gcert::ring_ok(r))
}

/// The credential state: one immutable adapter, a single-slot scope-keyed
/// token cache and a per-issuer key-ring cache, each behind a
/// reader/writer lock.
pub struct GoogleCloudAuth {
    token_scopes: RwLock<TokenCacheEntry, spec_fn(TokenCacheEntry) -> bool>,
    keyrings: RwLock<KeyRingSlots, spec_fn(KeyRingSlots) -> bool>,
    adapter: AuthAdapter,
}

impl GoogleCloudAuth {
    /// The token lock accepts every entry; the key-ring lock accepts
    /// exactly the slot states whose rings came out of a fetch.
    #[verifier::type_invariant]
    spec fn wf(&self) -> bool {
        (forall|e: TokenCacheEntry| #[trigger] self.token_scopes.inv(e)) && (forall|k: KeyRingSlots|
            #[trigger] self.keyrings.inv(k) == slots_inv(k))
    }

    /// The credential this state serves tokens from.
    pub closed spec fn spec_adapter(&self) -> AuthAdapter {
        self.adapter
    }

    /// Fresh credential state around an adapter: both caches start empty,
    /// so the first request of each kind refreshes.
    pub fn new(adapter: AuthAdapter) -> (r: GoogleCloudAuth)
        ensures
            r.spec_adapter() == adapter,
    {
        let token_scopes = RwLock::new(
            TokenCacheEntry { token: Token::placeholder(), scopes: Vec::new() },
            Ghost(|e: TokenCacheEntry| true),
        );
        proof {
            assert(slots_inv(KeyRingSlots { google_auth: None, firebase: None }));
        }
        let keyrings = RwLock::new(
            KeyRingSlots { google_auth: None, firebase: None },
            Ghost(|k: KeyRingSlots| slots_inv(k)),
        );
        proof {
            assert forall|e: TokenCacheEntry| #[trigger] token_scopes.inv(e) by {
                assert(token_scopes.pred()(e));
            }
            assert forall|k: KeyRingSlots| #[trigger] keyrings.inv(k) == slots_inv(k) by {
                assert(keyrings.pred()(k) == slots_inv(k));
            }
        }
        GoogleCloudAuth { token_scopes, keyrings, adapter }
    }

    /// A bearer token for the given scopes: a cached token is reused only
    /// while unexpired and issued for exactly this scope list, in order;
    /// otherwise one refresh runs under the exclusive lock and replaces
    /// the single slot.
    pub fn token<C: RawApi>(&self, client: &C, scopes: &[String]) -> (r: Result<Token, Error>)
        ensures
            r matches Ok(t) ==> t.expires_at is Some,
    {
        proof {
            use_type_invariant(self);
        }
        let now = now_unix();
        let read_handle = self.token_scopes.acquire_read();
        let entry = read_handle.borrow();
        if !entry.token.is_expired_at(now) && scopes_eq(entry.scopes.as_slice(), scopes) {
            let t = entry.token.duplicate();
            read_handle.release_read();
            return Ok(t);
        }
        read_handle.release_read();
        // blocked readers may have raced us here: re-check under the
        // exclusive lock before refreshing
        let (mut entry, write_handle) = self.token_scopes.acquire_write();
        let now2 = now_unix();
        if !entry.token.is_expired_at(now2) && scopes_eq(entry.scopes.as_slice(), scopes) {
            let t = entry.token.duplicate();
            write_handle.release_write(entry);
            return Ok(t);
        }
        match self.adapter.refresh_token(client, scopes) {
            Ok(fresh) => {
                let now3 = now_unix();
                match token_with_expiry(fresh, now3) {
                    Ok(stamped) => {
                        let out = stamped.duplicate();
                        entry.token = stamped;
                        entry.scopes = scopes_clone(scopes);
                        write_handle.release_write(entry);
                        Ok(out)
                    },
                    Err(e) => {
                        write_handle.release_write(entry);
                        Err(e)
                    },
                }
            },
            Err(e) => {
                write_handle.release_write(entry);
                Err(e)
            },
        }
    }

    /// A Firebase signing key by key id, from the cache or a fresh fetch.
    pub fn get_firebase_pkey<C: RawApi>(&self, client: &C, kid: &str) -> (r: Result<
        PubKey,
        Error,
    >)
        ensures
            r matches Ok(p) ==> gcert::key_from_fetched(kid@, p@),
    {
        self.get_pkey(client, kid, KeyRingType::Firebase)
    }

    /// A Google signing key by key id, from the cache or a fresh fetch.
    pub fn get_google_auth_pkey<C: RawApi>(&self, client: &C, kid: &str) -> (r: Result<
        PubKey,
        Error,
    >)
        ensures
            r matches Ok(p) ==> gcert::key_from_fetched(kid@, p@),
    {
        self.get_pkey(client, kid, KeyRingType::GoogleAuth)
    }

    /// The double-checked key lookup: a shared-lock read of an unexpired
    /// ring, an exclusive re-check, then one fetch; a key id absent from
    /// the freshly fetched ring is a credential failure, with no second
    /// fetch.
    fn get_pkey<C: RawApi>(&self, client: &C, kid: &str, ty: KeyRingType) -> (r: Result<
        PubKey,
        Error,
    >)
        ensures
            r matches Ok(p) ==> gcert::key_from_fetched(kid@, p@),
    {
        proof {
            use_type_invariant(self);
        }
        let now = now_unix();
        let read_handle = self.keyrings.acquire_read();
        let slots = read_handle.borrow();
        let cached: Option<PubKey> = {
            let slot = match ty {
                KeyRingType::GoogleAuth => &slots.google_auth,
                KeyRingType::Firebase => &slots.firebase,
            };
            match slot {
                Some(ring) => {
                    if !ring.is_expired_at(now) {
                        match ring.get(kid) {
                            Ok(p) => {
                                proof {
                                    gcert::lemma_ring_key_fetched(*ring, kid@, p@);
                                }
                                Some(p)
                            },
                            Err(_) => None,
                        }
                    } else {
                        None
                    }
                },
                None => None,
            }
        };
        read_handle.release_read();
        match cached {
            Some(p) => {
                return Ok(p);
            },
            None => {},
        }
        // blocked readers may have raced us here: re-check under the
        // exclusive lock before fetching
        let (mut slots, write_handle) = self.keyrings.acquire_write();
        let now2 = now_unix();
        let recheck: Option<Result<PubKey, Error>> = {
            let slot = match ty {
                KeyRingType::GoogleAuth => &slots.google_auth,
                KeyRingType::Firebase => &slots.firebase,
            };
            match slot {
                Some(ring) => {
                    if !ring.is_expired_at(now2) {
                        let r = ring.get(kid);
                        proof {
                            match &r {
                                Ok(p) => {
                                    gcert::lemma_ring_key_fetched(*ring, kid@, p@);
                                },
                                Err(_) => {},
                            }
                        }
                        Some(r)
                    } else {
                        None
                    }
                },
                None => None,
            }
        };
        match recheck {
            Some(r) => {
                write_handle.release_write(slots);
                return r;
            },
            None => {},
        }
        match gcert::fetch(client, ty) {
            Ok(ring) => {
                // absence in the fresh ring is final: no second fetch
                let result = ring.get(kid);
                proof {
                    match &result {
                        Ok(p) => {
                            gcert::lemma_ring_key_fetched(ring, kid@, p@);
                        },
                        Err(_) => {},
                    }
                }
                match ty {
                    KeyRingType::GoogleAuth => {
                        slots.google_auth = Some(ring);
                    },
                    KeyRingType::Firebase => {
                        slots.firebase = Some(ring);
                    },
                }
                write_handle.release_write(slots);
                result
            },
            Err(e) => {
                write_handle.release_write(slots);
                Err(e)
            },
        }
    }

    /// Exchanges a verified third-party identity token for a first-party
    /// token scoped to that identity. Only a service account can delegate;
    /// with application-default credentials this always fails as
    /// unauthorized, whatever the token.
    pub fn delegate<C: RawApi>(&self, client: &C, id_token: &str, scopes: &[String]) -> (r:
        Result<Token, Error>)
        ensures
            self.spec_adapter() is ApplicationDefault ==> r == Err::<Token, Error>(
                Error::Unauthorized,
            ),
            self.spec_adapter() is ServiceAccount && !(crate::jwt::jwt_kid_of(
                encode_utf8(id_token@),
            ) matches Some(b) && valid_utf8(b)) ==> r == Err::<Token, Error>(Error::Unauthorized),
            r matches Ok(t) ==> exists|doc: JVal| #[trigger] token_match(doc, t) && token_shape(
                doc,
            ),
    {
        match &self.adapter {
            // user-scoped credentials are no service identity: they
            // cannot speak for a third party
            AuthAdapter::ApplicationDefault(_) => Err(Error::Unauthorized),
            AuthAdapter::ServiceAccount(auth) => {
                let kid = match crate::jwt::get_jwt_kid(id_token.as_bytes()) {
                    Ok(k) => k,
                    Err(e) => {
                        return Err(e);
                    },
                };
                let cert = match self.get_pkey(client, kid.as_str(), KeyRingType::GoogleAuth) {
                    Ok(p) => p,
                    Err(e) => {
                        return Err(e);
                    },
                };
                let now = now_unix();
                let email = match crate::jwt::verify_id_token(
                    id_token.as_bytes(),
                    cert.as_bytes(),
                    now,
                ) {
                    Ok(em) => em,
                    Err(e) => {
                        return Err(e);
                    },
                };
                auth.fetch_token(client, Some(email.as_str()), scopes)
            },
        }
    }
}

} // verus!

verus! {

/// The RSA private key, as DER PKCS#1 bytes, inside a PEM private key; a
/// fixed function of the key text.
pub uninterp spec fn private_rsa_der_of(pem: Seq<u8>) -> Seq<u8>;

/// Relies on openssl's `Rsa::private_key_from_pem` and
/// `RsaRef::private_key_to_der`: parsing a PEM private key and re-encoding
/// it as DER PKCS#1, a fixed function of the key text.
#[verifier::external_body]
fn private_pem_to_der(pem: &[u8]) -> (r: Result<Vec<u8>, String>)
    ensures
        r matches Ok(d) ==> d@ == private_rsa_der_of(pem@),
{
    openssl::rsa::Rsa::private_key_from_pem(pem)
        .and_then(|k| k.private_key_to_der())
        .map_err(|e| e.to_string())
}

/// Builds a service-account credential from the fields of a key file: the
/// token endpoint doubles as the audience, and the PEM private key is
/// converted to DER. A key openssl cannot read is a certificate error.
pub fn service_account_from_key(
    client_email: String,
    token_uri: String,
    private_key_pem: &[u8],
) -> (r: Result<AuthAdapter, Error>)
    ensures
        match r {
            Ok(a) => a matches AuthAdapter::ServiceAccount(sa) && sa.meta.client_email
                == client_email && sa.meta.token_uri@ == token_uri@ && sa.meta.aud@ == token_uri@
                && sa.meta.private_key_der@ == private_rsa_der_of(private_key_pem@),
            Err(e) => e is OpenSslError,
        },
{
    let der = match private_pem_to_der(private_key_pem) {
        Ok(d) => d,
        Err(m) => {
            return Err(Error::OpenSslError(m));
        },
    };
    Ok(
        AuthAdapter::ServiceAccount(
            ServiceAccountAuth {
                meta: ServiceAccountMeta {
                    aud: token_uri.clone(),
                    token_uri,
                    client_email,
                    private_key_der: der,
                },
            },
        ),
    )
}

} // verus!
