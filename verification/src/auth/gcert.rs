//! Certificate key rings: the public signing keys an issuer publishes at
//! its well-known endpoint, their TTL derived from response headers, and
//! the lookup by key id.

use vstd::prelude::*;

use crate::client::{RawApi, Error, HttpMethod, HttpRequest};
use crate::json::{JVal, JsonVal, obj_get, bytes_to_string, bytes_clone, find_byte};
use crate::num::u64_dec;
use vstd::utf8::{valid_utf8, decode_utf8};
use vstd::string::{StrSliceExecFns, StringExecFns};
use std::sync::Arc;

verus! {

/// An immutable RSA public key in DER (PKCS#1) form, behind a
/// reference-counted buffer so that copies share it.
#[derive(Debug, Clone)]
pub struct PubKey {
    der: Arc<Vec<u8>>,
}

impl View for PubKey {
    type V = Seq<u8>;

    closed spec fn view(&self) -> Seq<u8> {
        self.der@
    }
}

/// Relies on `<Arc<Vec<u8>> as Clone>::clone` of the standard library:
/// the clone carries the same underlying value, sharing the allocation
/// rather than copying the bytes.
#[verifier::external_body]
fn share_buffer(a: &Arc<Vec<u8>>) -> (r: Arc<Vec<u8>>)
    ensures
        r == *a,
{
    a.clone()
}

impl PubKey {
    /// Wraps DER bytes as a key.
    pub fn from_der(der: Vec<u8>) -> (r: PubKey)
        ensures
            r@ == der@,
    {
        PubKey { der: Arc::new(der) }
    }

    /// The key's DER bytes.
    pub fn as_bytes(&self) -> (r: &[u8])
        ensures
            r@ == self@,
    {
        self.der.as_slice()
    }

    /// An equal copy of this key, sharing the same buffer.
    pub fn duplicate(&self) -> (r: PubKey)
        ensures
            r@ == self@,
    {
        PubKey { der: share_buffer(&self.der) }
    }
}

/// Which well-known certificate endpoint a ring comes from.
#[derive(Copy, Clone, Debug, PartialEq, Eq, Structural)]
pub enum KeyRingType {
    GoogleAuth,
    Firebase,
}

/// A fetched set of signing keys: key id to public key, with the expiry
/// instant derived from the response's caching headers. An absent expiry
/// means the ring is always treated as expired.
#[derive(Debug)]
pub struct KeyRing {
    keys: Vec<(String, PubKey)>,
    expires_at: Option<i64>,
}

/// The first key under a given id, as DER bytes.
pub open spec fn ring_lookup(keys: Seq<(String, PubKey)>, kid: Seq<char>) -> Option<Seq<u8>>
    decreases keys.len(),
{
    if keys.len() == 0 {
        None
    } else if keys[0].0@ == kid {
        Some(keys[0].1@)
    } else {
        ring_lookup(keys.subrange(1, keys.len() as int), kid)
    }
}

/// Whether a ring is expired at `now`: it is when it has no expiry, or
/// when `now` has passed it.
pub open spec fn ring_expired_at(expires_at: Option<i64>, now: int) -> bool {
    match expires_at {
        None => true,
        Some(at) => now > at,
    }
}

impl KeyRing {
    /// Builds a ring from its parts.
    pub fn new(keys: Vec<(String, PubKey)>, expires_at: Option<i64>) -> (r: KeyRing)
        ensures
            r.spec_keys() == keys@,
            r.spec_expires_at() == expires_at,
    {
        KeyRing { keys, expires_at }
    }

    /// The held keys.
    pub closed spec fn spec_keys(&self) -> Seq<(String, PubKey)> {
        self.keys@
    }

    /// The held expiry instant.
    pub closed spec fn spec_expires_at(&self) -> Option<i64> {
        self.expires_at
    }

    /// Whether this ring is expired at `now`.
    pub fn is_expired_at(&self, now: i64) -> (r: bool)
        ensures
            r == ring_expired_at(self.spec_expires_at(), now as int),
    {
        match self.expires_at {
            None => true,
            Some(at) => now > at,
        }
    }

    /// Whether this ring is expired at the current wall-clock time.
    pub fn is_expired(&self) -> (r: bool)
        ensures
            self.spec_expires_at() is None ==> r,
            exists|now: i64| r == ring_expired_at(self.spec_expires_at(), now as int),
    {
        let now = crate::auth::now_unix();
        self.is_expired_at(now)
    }

    /// Looks up a key id; a miss is a credential failure, not a retry.
    pub fn get(&self, kid: &str) -> (r: Result<PubKey, Error>)
        ensures
            match r {
                Ok(p) => ring_lookup(self.spec_keys(), kid@) == Some(p@),
                Err(e) => e == Error::Unauthorized && ring_lookup(self.spec_keys(), kid@) is None,
            },
    {
        let mut i: usize = 0;
        proof {
            assert(self.keys@.subrange(0, self.keys@.len() as int) =~= self.keys@);
        }
        while i < self.keys.len()
            invariant
                i <= self.keys@.len(),
                ring_lookup(self.keys@, kid@) == ring_lookup(
                    self.keys@.subrange(i as int, self.keys@.len() as int),
                    kid@,
                ),
            decreases self.keys@.len() - i,
        {
            let ghost sfx = self.keys@.subrange(i as int, self.keys@.len() as int);
            proof {
                assert(sfx[0] == self.keys@[i as int]);
                assert(sfx.subrange(1, sfx.len() as int) =~= self.keys@.subrange(
                    i as int + 1,
                    self.keys@.len() as int,
                ));
            }
            if crate::json::str_eq(self.keys[i].0.as_str(), kid) {
                return Ok(self.keys[i].1.duplicate());
            }
            i += 1;
        }
        proof {
            assert(self.keys@.subrange(self.keys@.len() as int, self.keys@.len() as int) =~= Seq::<
                (String, PubKey),
            >::empty());
        }
        Err(Error::Unauthorized)
    }
}

/// The ring's expiry: the fetch instant plus the `max-age` directive less
/// the `Age` header; absent when the response named no `max-age`, which
/// makes the ring always expired — a deliberately fail-safe default.
pub open spec fn spec_expires_from(age: u32, max_age: Option<u32>, now: int) -> Option<int> {
    match max_age {
        Some(m) => Some(now + m - age),
        None => None,
    }
}

/// Computes a ring's expiry instant from its response headers.
pub fn mk_expires_at(age: u32, max_age: Option<u32>, now: i64) -> (r: Option<i64>)
    requires
        -0x20000000000000 < now < 0x20000000000000,
    ensures
        match r {
            Some(at) => spec_expires_from(age, max_age, now as int) == Some(at as int),
            None => spec_expires_from(age, max_age, now as int) is None,
        },
{
    match max_age {
        Some(m) => Some(now + (m as i64) - (age as i64)),
        None => None,
    }
}

} // verus!

verus! {

/// The RSA public key, as DER PKCS#1 bytes, inside an X.509 certificate in
/// PEM form; a fixed function of the certificate text.
pub uninterp spec fn cert_rsa_der_of(pem: Seq<u8>) -> Seq<u8>;

/// Relies on openssl's `X509::from_pem`, `X509Ref::public_key`,
/// `PKeyRef::rsa` and `RsaRef::public_key_to_der_pkcs1`: parsing a PEM
/// certificate and extracting its RSA public key in DER PKCS#1 form, a
/// fixed function of the certificate text.
#[verifier::external_body]
fn cert_pem_to_rsa_der(pem: &[u8]) -> (r: Result<Vec<u8>, String>)
    ensures
        r matches Ok(d) ==> d@ == cert_rsa_der_of(pem@),
{
    openssl::x509::X509::from_pem(pem)
        .and_then(|c| c.public_key())
        .and_then(|k| k.rsa())
        .and_then(|k| k.public_key_to_der_pkcs1())
        .map_err(|e| e.to_string())
}

/// The lowercase form of an ASCII byte.
pub open spec fn ascii_lower(b: u8) -> u8 {
    if 65 <= b && b <= 90 {
        (b + 32) as u8
    } else {
        b
    }
}

/// The lowercase form of a byte text.
pub open spec fn lower_bytes(s: Seq<u8>) -> Seq<u8> {
    s.map_values(|b: u8| ascii_lower(b))
}

/// The first header whose lowercased name equals `name`, as its value.
pub open spec fn header_value(hs: Seq<(Seq<u8>, Seq<u8>)>, name: Seq<u8>) -> Option<Seq<u8>>
    decreases hs.len(),
{
    if hs.len() == 0 {
        None
    } else if lower_bytes(hs[0].0) == name {
        Some(hs[0].1)
    } else {
        header_value(hs.subrange(1, hs.len() as int), name)
    }
}

/// Whether the lowercase form of `a` equals `b`.
fn lower_eq(a: &[u8], b: &[u8]) -> (r: bool)
    ensures
        r == (lower_bytes(a@) == b@),
{
    if a.len() != b.len() {
        proof {
            assert(lower_bytes(a@).len() == a@.len());
        }
        return false;
    }
    let mut k: usize = 0;
    while k < a.len()
        invariant
            k <= a.len() == b.len(),
            forall|i: int| 0 <= i < k ==> ascii_lower(a@[i]) == b@[i],
        decreases a.len() - k,
    {
        let c = a[k];
        let lc: u8 = if 65 <= c && c <= 90 {
            c + 32
        } else {
            c
        };
        if lc != b[k] {
            proof {
                assert(lower_bytes(a@)[k as int] == ascii_lower(a@[k as int]));
            }
            return false;
        }
        k += 1;
    }
    proof {
        assert(lower_bytes(a@) =~= b@);
    }
    true
}

/// The first header named `name` (case-insensitively), as its value.
fn find_header<'a>(headers: &'a Vec<(Vec<u8>, Vec<u8>)>, name: &[u8]) -> (r: Option<&'a Vec<u8>>)
    ensures
        match r {
            Some(v) => header_value(crate::client::pair_views(headers@), name@) == Some(v@),
            None => header_value(crate::client::pair_views(headers@), name@) is None,
        },
{
    let ghost all = crate::client::pair_views(headers@);
    let mut i: usize = 0;
    proof {
        assert(headers@.subrange(0, headers@.len() as int) =~= headers@);
    }
    while i < headers.len()
        invariant
            i <= headers@.len(),
            all == crate::client::pair_views(headers@),
            header_value(all, name@) == header_value(
                crate::client::pair_views(headers@.subrange(i as int, headers@.len() as int)),
                name@,
            ),
        decreases headers@.len() - i,
    {
        let ghost sfx = headers@.subrange(i as int, headers@.len() as int);
        proof {
            assert(sfx[0] == headers@[i as int]);
            assert(sfx.subrange(1, sfx.len() as int) =~= headers@.subrange(
                i as int + 1,
                headers@.len() as int,
            ));
            assert(crate::client::pair_views(sfx)[0] == (headers@[i as int].0@, headers@[i as int].1@));
            assert(crate::client::pair_views(sfx).subrange(
                1,
                crate::client::pair_views(sfx).len() as int,
            ) =~= crate::client::pair_views(
                headers@.subrange(i as int + 1, headers@.len() as int),
            ));
        }
        if lower_eq(headers[i].0.as_slice(), name) {
            return Some(&headers[i].1);
        }
        i += 1;
    }
    proof {
        assert(headers@.subrange(headers@.len() as int, headers@.len() as int) =~= Seq::<(
            Vec<u8>,
            Vec<u8>,
        )>::empty());
        assert(crate::client::pair_views(Seq::<(Vec<u8>, Vec<u8>)>::empty()) =~= Seq::<(
            Seq<u8>,
            Seq<u8>,
        )>::empty());
    }
    None
}

/// The header name `age`.
pub open spec fn k_age() -> Seq<u8> {
    seq![97u8, 103u8, 101u8]
}

/// The header name `cache-control`.
pub open spec fn k_cache_control() -> Seq<u8> {
    seq![99u8, 97u8, 99u8, 104u8, 101u8, 45u8, 99u8, 111u8, 110u8, 116u8, 114u8, 111u8, 108u8]
}

/// The directive prefix `max-age=`.
pub open spec fn k_max_age_eq() -> Seq<u8> {
    seq![109u8, 97u8, 120u8, 45u8, 97u8, 103u8, 101u8, 61u8]
}

/// The `Age` a response reports: its `age` header when that is a
/// canonical decimal within `u32`, else zero.
pub open spec fn spec_age_of(hs: Seq<(Seq<u8>, Seq<u8>)>) -> u32 {
    match header_value(hs, k_age()) {
        Some(v) => if exists|n: u32| v == u64_dec(n as nat) {
            choose|n: u32| v == u64_dec(n as nat)
        } else {
            0
        },
        None => 0,
    }
}

/// Reads the `Age` header; anything but a canonical decimal counts as
/// zero.
pub fn age_of_headers(headers: &Vec<(Vec<u8>, Vec<u8>)>) -> (r: u32)
    ensures
        r == spec_age_of(crate::client::pair_views(headers@)),
{
    let age_k: Vec<u8> = vec![97u8, 103, 101];
    proof {
        assert(age_k@ =~= k_age());
    }
    match find_header(headers, age_k.as_slice()) {
        Some(v) => {
            match crate::num::dec_to_u64_at(v.as_slice(), 0, v.len()) {
                Some(n) => {
                    proof {
                        assert(v@.subrange(0, v@.len() as int) =~= v@);
                    }
                    if n <= u32::MAX as u64 {
                        proof {
                            let picked = choose|m: u32| v@ == u64_dec(m as nat);
                            assert(v@ == u64_dec((n as u32) as nat));
                            crate::num::lemma_u64_dec_props(picked as nat);
                            crate::num::lemma_u64_dec_props((n as u32) as nat);
                        }
                        n as u32
                    } else {
                        proof {
                            assert forall|m: u32| v@ != u64_dec(m as nat) by {
                                crate::num::lemma_u64_dec_props(m as nat);
                                crate::num::lemma_u64_dec_props(n as nat);
                                if v@ == u64_dec(m as nat) {
                                    assert(crate::num::dec_val(u64_dec(m as nat))
                                        == crate::num::dec_val(u64_dec(n as nat)));
                                }
                            }
                        }
                        0
                    }
                },
                None => {
                    proof {
                        assert(v@.subrange(0, v@.len() as int) =~= v@);
                        assert forall|m: u32| v@ != u64_dec(m as nat) by {
                            assert(v@ != u64_dec((m as u64) as nat));
                        }
                    }
                    0
                },
            }
        },
        None => 0,
    }
}

/// The first non-space, non-tab position at or after `i`.
pub open spec fn skip_sp(s: Seq<u8>, i: int) -> int
    decreases s.len() - i,
{
    if 0 <= i && i < s.len() && (s[i] == 32 || s[i] == 9) {
        skip_sp(s, i + 1)
    } else {
        i
    }
}

/// The `max-age` directive of a `Cache-Control` value: scanning the
/// comma-separated directives, the first whose (space-trimmed) text is
/// `max-age=` followed by a canonical decimal within `u32`.
pub open spec fn spec_cc_max_age(s: Seq<u8>, i: int) -> Option<u32>
    decreases s.len() - i,
{
    if !(0 <= i && i <= s.len()) {
        None
    } else {
        let c = find_byte(s, 44, i);
        let t = skip_sp(s, i);
        let ok = t + 8 <= c && s.subrange(t, t + 8) == k_max_age_eq() && (exists|n: u32|
            s.subrange(t + 8, c) == u64_dec(n as nat));
        if ok {
            Some(choose|n: u32| s.subrange(t + 8, c) == u64_dec(n as nat))
        } else if c < s.len() {
            spec_cc_max_age(
                s,
                if c + 1 > i {
                    c + 1
                } else {
                    i + 1
                },
            )
        } else {
            None
        }
    }
}

/// `skip_sp` stays within `[i, s.len()]`.
proof fn lemma_skip_sp_bounds(s: Seq<u8>, i: int)
    requires
        0 <= i <= s.len(),
    ensures
        i <= skip_sp(s, i) <= s.len(),
    decreases s.len() - i,
{
    if i < s.len() && (s[i] == 32 || s[i] == 9) {
        lemma_skip_sp_bounds(s, i + 1);
    }
}

/// The first non-space, non-tab position at or after `i`.
fn skip_sp_x(s: &[u8], i: usize) -> (r: usize)
    requires
        i <= s.len(),
    ensures
        r as int == skip_sp(s@, i as int),
        i <= r <= s.len(),
    decreases s.len() - i,
{
    if i < s.len() && (s[i] == 32 || s[i] == 9) {
        skip_sp_x(s, i + 1)
    } else {
        i
    }
}

/// Reads the `max-age` directive from a `Cache-Control` value.
pub fn cc_max_age(v: &[u8]) -> (r: Option<u32>)
    ensures
        match r {
            Some(n) => spec_cc_max_age(v@, 0) == Some(n),
            None => spec_cc_max_age(v@, 0) is None,
        },
{
    let mut i: usize = 0;
    loop
        invariant
            i <= v.len(),
            spec_cc_max_age(v@, 0) == spec_cc_max_age(v@, i as int),
        decreases v.len() - i,
    {
        let c = crate::json::find_byte_x(v, 44, i);
        let t = skip_sp_x(v, i);
        let mut matched: Option<u32> = None;
        if c >= 8 && t <= c - 8 {
            let pre = &v[t..t + 8];
            let want: Vec<u8> = vec![109u8, 97, 120, 45, 97, 103, 101, 61];
            proof {
                assert(want@ =~= k_max_age_eq());
                assert(pre@ == v@.subrange(t as int, t as int + 8));
            }
            if crate::json::bytes_eq(pre, want.as_slice()) {
                match crate::num::dec_to_u64_at(v, t + 8, c) {
                    Some(n) => {
                        if n <= u32::MAX as u64 {
                            proof {
                                let picked = choose|m: u32|
                                    v@.subrange(t as int + 8, c as int) == u64_dec(m as nat);
                                assert(v@.subrange(t as int + 8, c as int) == u64_dec(
                                    (n as u32) as nat,
                                ));
                                crate::num::lemma_u64_dec_props(picked as nat);
                                crate::num::lemma_u64_dec_props((n as u32) as nat);
                            }
                            matched = Some(n as u32);
                        } else {
                            proof {
                                assert forall|m: u32|
                                    v@.subrange(t as int + 8, c as int) != u64_dec(m as nat) by {
                                    crate::num::lemma_u64_dec_props(m as nat);
                                    crate::num::lemma_u64_dec_props(n as nat);
                                    if v@.subrange(t as int + 8, c as int) == u64_dec(m as nat) {
                                        assert(crate::num::dec_val(u64_dec(m as nat))
                                            == crate::num::dec_val(u64_dec(n as nat)));
                                    }
                                }
                            }
                        }
                    },
                    None => {
                        proof {
                            assert forall|m: u32|
                                v@.subrange(t as int + 8, c as int) != u64_dec(m as nat) by {
                                assert(v@.subrange(t as int + 8, c as int) != u64_dec(
                                    (m as u64) as nat,
                                ));
                            }
                        }
                    },
                }
            }
        }
        match matched {
            Some(n) => {
                return Some(n);
            },
            None => {},
        }
        if c >= v.len() {
            return None;
        }
        i = c + 1;
    }
}

} // verus!

verus! {

/// How a key list relates to the certificate map it was built from: the
/// same ids in the same order, each key the RSA DER of its PEM
/// certificate.
pub open spec fn keys_match(ms: Seq<(Seq<u8>, JVal)>, keys: Seq<(String, PubKey)>) -> bool {
    &&& keys.len() == ms.len()
    &&& forall|i: int|
        0 <= i < ms.len() ==> ((#[trigger] ms[i]).1 matches JVal::Str(pem) && valid_utf8(ms[i].0)
            && keys[i].0@ == decode_utf8(ms[i].0) && keys[i].1@ == cert_rsa_der_of(pem))
}

/// Builds the key list from a fetched certificate map: each member a key
/// id and a PEM certificate. A non-string member or an id that is not
/// UTF-8 is a JSON error; a certificate openssl cannot read is a
/// certificate error.
pub fn keys_from_json(v: &JsonVal) -> (r: Result<Vec<(String, PubKey)>, Error>)
    ensures
        match r {
            Ok(keys) => v@ matches JVal::Obj(ms) && keys_match(ms, keys@),
            Err(e) => e matches Error::JsonError(_) || e matches Error::OpenSslError(_),
        },
{
    match v {
        JsonVal::Obj(ps) => {
            let mut keys: Vec<(String, PubKey)> = Vec::new();
            let mut i: usize = 0;
            proof {
                crate::json::lemma_jmembers_len(ps@);
            }
            while i < ps.len()
                invariant
                    i <= ps@.len(),
                    keys@.len() == i,
                    crate::json::jmembers_of(ps@).len() == ps@.len(),
                    forall|j: int|
                        0 <= j < i ==> ((#[trigger] crate::json::jmembers_of(ps@)[j]).1 matches
                            JVal::Str(pem) && valid_utf8(crate::json::jmembers_of(ps@)[j].0)
                            && keys@[j].0@ == decode_utf8(crate::json::jmembers_of(ps@)[j].0)
                            && keys@[j].1@ == cert_rsa_der_of(pem)),
                decreases ps@.len() - i,
            {
                proof {
                    crate::json::lemma_jmembers_index(ps@, i as int);
                }
                let kid: String = match bytes_to_string(bytes_clone(&ps[i].0)) {
                    Ok(s) => s,
                    Err(_) => {
                        return Err(Error::JsonError(cert_map_text()));
                    },
                };
                let der: Vec<u8> = match &ps[i].1 {
                    JsonVal::Str(pem) => match cert_pem_to_rsa_der(pem.as_slice()) {
                        Ok(d) => d,
                        Err(m) => {
                            return Err(Error::OpenSslError(m));
                        },
                    },
                    _ => {
                        return Err(Error::JsonError(cert_map_text()));
                    },
                };
                keys.push((kid, PubKey::from_der(der)));
                i += 1;
            }
            Ok(keys)
        },
        _ => Err(Error::JsonError(cert_map_text())),
    }
}

/// The message attached to a certificate map of the wrong shape.
fn cert_map_text() -> String {
    String::from_str("certificate map has an unexpected shape")
}

/// How a fetched ring relates to the exchange that produced it: its keys
/// come from the body's certificate map, and its expiry from the response
/// headers and the fetch instant.
pub open spec fn ring_sources(
    hs: Seq<(Seq<u8>, Seq<u8>)>,
    doc: JVal,
    now: int,
    kr: KeyRing,
) -> bool {
    &&& (doc matches JVal::Obj(ms) && keys_match(ms, kr.spec_keys()))
    &&& {
        let ma = match header_value(hs, k_cache_control()) {
            Some(v) => spec_cc_max_age(v, 0),
            None => None,
        };
        match spec_expires_from(spec_age_of(hs), ma, now) {
            Some(at) => kr.spec_expires_at() matches Some(a) && a as int == at,
            None => kr.spec_expires_at() is None,
        }
    }
}

/// Whether a ring could have come out of some fetch exchange: its keys
/// from a certificate map, its expiry from response headers and a fetch
/// instant.
pub open spec fn ring_ok(kr: KeyRing) -> bool {
    exists|hs: Seq<(Seq<u8>, Seq<u8>)>, doc: JVal, now: int|
        #[trigger] ring_sources(hs, doc, now, kr)
}

/// Whether `der` is the key that some fetched certificate map holds under
/// the id `kid`: there is a key list from such a map in which `kid`'s
/// first entry is `der`.
pub open spec fn key_from_fetched(kid: Seq<char>, der: Seq<u8>) -> bool {
    exists|keys: Seq<(String, PubKey)>, ms: Seq<(Seq<u8>, JVal)>|
        #[trigger] keys_match(ms, keys) && ring_lookup(keys, kid) == Some(der)
}

/// A hit in a fetched ring is a key from its certificate map.
pub proof fn lemma_ring_key_fetched(kr: KeyRing, kid: Seq<char>, der: Seq<u8>)
    requires
        ring_ok(kr),
        ring_lookup(kr.spec_keys(), kid) == Some(der),
    ensures
        key_from_fetched(kid, der),
{
    let (hs, doc, now) = choose|hs: Seq<(Seq<u8>, Seq<u8>)>, doc: JVal, now: int|
        ring_sources(hs, doc, now, kr);
    let ms = doc->Obj_0;
    assert(keys_match(ms, kr.spec_keys()));
}

/// Fetches an issuer's key ring from its well-known endpoint and stamps
/// its TTL from the response headers.
pub fn fetch<C: RawApi>(client: &C, ty: KeyRingType) -> (r: Result<KeyRing, Error>)
    ensures
        r matches Ok(kr) ==> ring_ok(kr),
{
    let uri: Vec<u8> = match ty {
        KeyRingType::GoogleAuth => ("https://www.googleapis.com/oauth2/v1/certs").as_bytes_vec(),
        KeyRingType::Firebase => (
        "https://www.googleapis.com/robot/v1/metadata/x509/securetoken@system.gserviceaccount.com").as_bytes_vec(),
    };
    let req = HttpRequest {
        method: HttpMethod::Get,
        uri,
        headers: Vec::new(),
        body: Vec::new(),
    };
    let (headers, body) = match client.request(req) {
        Ok(p) => p,
        Err(e) => {
            return Err(e);
        },
    };
    let keys = match keys_from_json(&body) {
        Ok(k) => k,
        Err(e) => {
            return Err(e);
        },
    };
    let cc_k: Vec<u8> = vec![99u8, 97, 99, 104, 101, 45, 99, 111, 110, 116, 114, 111, 108];
    proof {
        assert(cc_k@ =~= k_cache_control());
    }
    let max_age: Option<u32> = match find_header(&headers, cc_k.as_slice()) {
        Some(v) => cc_max_age(v.as_slice()),
        None => None,
    };
    let age = age_of_headers(&headers);
    let now = crate::auth::now_unix();
    let ring = KeyRing::new(keys, mk_expires_at(age, max_age, now));
    proof {
        assert(ring_sources(crate::client::pair_views(headers@), body@, now as int, ring));
        assert(ring_ok(ring));
    }
    Ok(ring)
}

} // verus!
