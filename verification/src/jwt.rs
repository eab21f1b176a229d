//! JSON Web Tokens: building and signing the service-account assertion,
//! and parsing and verifying inbound identity tokens.
//!
//! Everything textual — the header and claim documents, the base64url
//! segments, the dot-joined layout, the expiry check — is built and parsed
//! by verified code with exact contracts. Only the two RSA primitives are
//! trusted: producing and checking an RS256 signature.

use vstd::prelude::*;

use crate::b64::{b64_encoding, b64_decoding, b64_encode, b64_decode};
use crate::json::{
    JVal, JsonVal, json_text, json_parse, obj_get, json_parse_x, get_field, as_str, as_i64,
    to_json_bytes, bytes_to_string, bytes_clone, find_byte, find_byte_x,
};
use crate::num::i64_dec;
use crate::client::Error;
use vstd::utf8::{valid_utf8, decode_utf8, encode_utf8};
use vstd::string::StrSliceExecFns;

verus! {

/// Seconds a grant assertion stays valid: fifty-nine minutes, deliberately
/// under the one-hour protocol ceiling.
pub const GRANT_EXP_DELTA: i64 = 3540;

/// The signed claims of a service-account assertion.
#[derive(Debug, Clone)]
pub struct Claims {
    /// The service account's email address.
    pub iss: String,
    /// The token endpoint the assertion is meant for.
    pub aud: String,
    /// The space-joined scope list.
    pub scope: String,
    /// Unix time the assertion was issued.
    pub iat: i64,
    /// Unix time the assertion lapses.
    pub exp: i64,
    /// The delegated subject, when exchanging an identity.
    pub sub: Option<String>,
}

/// The claims of a grant assertion issued at `now`: the issuer, audience,
/// scope and subject as given, `iat` the issue instant, and `exp` exactly
/// fifty-nine minutes later.
pub fn grant_claims(
    iss: String,
    aud: String,
    scope: String,
    now: i64,
    sub: Option<String>,
) -> (c: Claims)
    requires
        now <= i64::MAX - GRANT_EXP_DELTA,
    ensures
        c.iss == iss,
        c.aud == aud,
        c.scope == scope,
        c.iat == now,
        c.exp == now + GRANT_EXP_DELTA,
        c.sub == sub,
{
    Claims { iss, aud, scope, iat: now, exp: now + GRANT_EXP_DELTA, sub }
}

/// The member name `iss`.
pub open spec fn k_iss() -> Seq<u8> {
    seq![105u8, 115u8, 115u8]
}

/// The member name `aud`.
pub open spec fn k_aud() -> Seq<u8> {
    seq![97u8, 117u8, 100u8]
}

/// The member name `scope`.
pub open spec fn k_scope() -> Seq<u8> {
    seq![115u8, 99u8, 111u8, 112u8, 101u8]
}

/// The member name `iat`.
pub open spec fn k_iat() -> Seq<u8> {
    seq![105u8, 97u8, 116u8]
}

/// The member name `exp`.
pub open spec fn k_exp() -> Seq<u8> {
    seq![101u8, 120u8, 112u8]
}

/// The member name `sub`.
pub open spec fn k_sub() -> Seq<u8> {
    seq![115u8, 117u8, 98u8]
}

/// The member name `alg`.
pub open spec fn k_alg() -> Seq<u8> {
    seq![97u8, 108u8, 103u8]
}

/// The member name `typ`.
pub open spec fn k_typ() -> Seq<u8> {
    seq![116u8, 121u8, 112u8]
}

/// The member name `kid`.
pub open spec fn k_kid() -> Seq<u8> {
    seq![107u8, 105u8, 100u8]
}

/// The member name `email`.
pub open spec fn k_email() -> Seq<u8> {
    seq![101u8, 109u8, 97u8, 105u8, 108u8]
}

/// The text `RS256`.
pub open spec fn rs256_text() -> Seq<u8> {
    seq![82u8, 83u8, 50u8, 53u8, 54u8]
}

/// The claim document of an assertion: the six members in a fixed order,
/// an absent subject written as null.
pub open spec fn claims_jval(c: Claims) -> JVal {
    JVal::Obj(
        seq![
            (k_iss(), JVal::Str(encode_utf8(c.iss@))),
            (k_aud(), JVal::Str(encode_utf8(c.aud@))),
            (k_scope(), JVal::Str(encode_utf8(c.scope@))),
            (k_iat(), JVal::Num(i64_dec(c.iat as int))),
            (k_exp(), JVal::Num(i64_dec(c.exp as int))),
            (
                k_sub(),
                match c.sub {
                    Some(s) => JVal::Str(encode_utf8(s@)),
                    None => JVal::Null,
                },
            ),
        ],
    )
}

/// The header document of an assertion: `{"alg":"RS256","typ":"JWT"}`.
pub open spec fn header_jval() -> JVal {
    JVal::Obj(
        seq![(k_alg(), JVal::Str(rs256_text())), (k_typ(), JVal::Str(seq![74u8, 87u8, 84u8]))],
    )
}

/// The signing input of an assertion: the two base64url segments joined by
/// a dot.
pub open spec fn signing_input(c: Claims) -> Seq<u8> {
    b64_encoding(true, false, json_text(header_jval())) + seq![46u8] + b64_encoding(
        true,
        false,
        json_text(claims_jval(c)),
    )
}

/// The signature bytes that jsonwebtoken's RS256 signing produces for a
/// key and message; a fixed function of the two (RSASSA-PKCS1-v1_5 is
/// deterministic).
pub uninterp spec fn rs256_sig_of(key_der: Seq<u8>, msg: Seq<u8>) -> Seq<u8>;

/// Whether jsonwebtoken's RS256 verification accepts the base64url-encoded
/// signature for a key and message; a fixed function of the three.
pub uninterp spec fn rs256_valid(key_der: Seq<u8>, msg: Seq<u8>, sig_b64: Seq<u8>) -> bool;

/// Relies on jsonwebtoken's `crypto::sign` with `Algorithm::RS256` and
/// `EncodingKey::from_rsa_der`: the result depends on the key and message
/// alone and is the base64url (unpadded) encoding of the signature bytes.
#[verifier::external_body]
fn rs256_sign(msg: &[u8], key_der: &[u8]) -> (r: Result<Vec<u8>, ()>)
    ensures
        r matches Ok(s) ==> s@ == b64_encoding(true, false, rs256_sig_of(key_der@, msg@)),
{
    let key = jsonwebtoken::EncodingKey::from_rsa_der(key_der);
    match jsonwebtoken::crypto::sign(msg, &key, jsonwebtoken::Algorithm::RS256) {
        Ok(s) => Ok(s.into_bytes()),
        Err(_) => Err(()),
    }
}

/// Relies on jsonwebtoken's `crypto::verify` with `Algorithm::RS256` and
/// `DecodingKey::from_rsa_der`: the outcome depends on the key, message
/// and encoded signature alone; a failure to decode the signature counts
/// as a rejection.
#[verifier::external_body]
pub fn rs256_verify(sig_b64: &[u8], msg: &[u8], key_der: &[u8]) -> (r: bool)
    ensures
        r == rs256_valid(key_der@, msg@, sig_b64@),
{
    let sig = match core::str::from_utf8(sig_b64) {
        Ok(s) => s,
        Err(_) => {
            return false;
        },
    };
    let key = jsonwebtoken::DecodingKey::from_rsa_der(key_der);
    match jsonwebtoken::crypto::verify(sig, msg, &key, jsonwebtoken::Algorithm::RS256) {
        Ok(b) => b,
        Err(_) => false,
    }
}

/// Builds and signs the assertion: signing input, a dot, and the encoded
/// signature. Signing fails only on a key the signer cannot use; that is a
/// credential failure.
pub fn build_assertion(c: &Claims, key_der: &[u8]) -> (r: Result<Vec<u8>, Error>)
    ensures
        r matches Ok(t) ==> t@ == signing_input(*c) + seq![46u8] + b64_encoding(
            true,
            false,
            rs256_sig_of(key_der@, signing_input(*c)),
        ),
        r matches Err(e) ==> e == Error::Unauthorized,
{
    let header = header_json();
    let claims = claims_json(c);
    let hb = to_json_bytes(&header);
    let cb = to_json_bytes(&claims);
    let mut input = b64_encode(hb.as_slice(), true, false);
    input.push(46);
    let mut cseg = b64_encode(cb.as_slice(), true, false);
    input.append(&mut cseg);
    proof {
        assert(input@ =~= signing_input(*c));
    }
    match rs256_sign(input.as_slice(), key_der) {
        Ok(mut sig) => {
            input.push(46);
            input.append(&mut sig);
            proof {
                assert(input@ =~= signing_input(*c) + seq![46u8] + b64_encoding(
                    true,
                    false,
                    rs256_sig_of(key_der@, signing_input(*c)),
                ));
            }
            Ok(input)
        },
        Err(()) => Err(Error::Unauthorized),
    }
}

/// The held form of the assertion header.
fn header_json() -> (r: JsonVal)
    ensures
        r@ == header_jval(),
{
    let alg: Vec<u8> = vec![97u8, 108, 103];
    let rs: Vec<u8> = vec![82u8, 83, 50, 53, 54];
    let typ: Vec<u8> = vec![116u8, 121, 112];
    let jwt_t: Vec<u8> = vec![74u8, 87, 84];
    proof {
        assert(alg@ =~= k_alg());
        assert(rs@ =~= rs256_text());
        assert(typ@ =~= k_typ());
        assert(jwt_t@ =~= seq![74u8, 87u8, 84u8]);
    }
    let mut ps: Vec<(Vec<u8>, JsonVal)> = Vec::new();
    ps.push((alg, JsonVal::Str(rs)));
    ps.push((typ, JsonVal::Str(jwt_t)));
    let r = JsonVal::Obj(ps);
    proof {
        assert(ps@.len() == 2);
        assert(ps@[0].0@ =~= k_alg());
        assert(crate::json::jval_of(ps@[0].1) == JVal::Str(rs256_text()));
        assert(ps@[1].0@ =~= k_typ());
        assert(crate::json::jval_of(ps@[1].1) == JVal::Str(seq![74u8, 87u8, 84u8]));
        let m = crate::json::jmembers_of(ps@);
        assert(ps@.subrange(1, 2).subrange(1, 1) =~= Seq::<(Vec<u8>, JsonVal)>::empty());
        assert(crate::json::jmembers_of(Seq::<(Vec<u8>, JsonVal)>::empty()) =~= Seq::<(
            Seq<u8>,
            JVal,
        )>::empty());
        assert(ps@.subrange(1, 2)[0] == ps@[1]);
        assert(crate::json::jmembers_of(ps@.subrange(1, 2)) =~~= seq![(k_typ(), JVal::Str(
            seq![74u8, 87u8, 84u8],
        ))]);
        assert(m =~~= seq![(k_alg(), JVal::Str(rs256_text())), (k_typ(), JVal::Str(
            seq![74u8, 87u8, 84u8],
        ))]);
    }
    r
}

/// The held form of an assertion's claim document.
fn claims_json(c: &Claims) -> (r: JsonVal)
    ensures
        r@ == claims_jval(*c),
{
    let mut ps: Vec<(Vec<u8>, JsonVal)> = Vec::new();
    let iss_k: Vec<u8> = vec![105u8, 115, 115];
    let aud_k: Vec<u8> = vec![97u8, 117, 100];
    let scope_k: Vec<u8> = vec![115u8, 99, 111, 112, 101];
    let iat_k: Vec<u8> = vec![105u8, 97, 116];
    let exp_k: Vec<u8> = vec![101u8, 120, 112];
    let sub_k: Vec<u8> = vec![115u8, 117, 98];
    proof {
        assert(iss_k@ =~= k_iss());
        assert(aud_k@ =~= k_aud());
        assert(scope_k@ =~= k_scope());
        assert(iat_k@ =~= k_iat());
        assert(exp_k@ =~= k_exp());
        assert(sub_k@ =~= k_sub());
    }
    ps.push((iss_k, JsonVal::Str(c.iss.as_str().as_bytes_vec())));
    ps.push((aud_k, JsonVal::Str(c.aud.as_str().as_bytes_vec())));
    ps.push((scope_k, JsonVal::Str(c.scope.as_str().as_bytes_vec())));
    ps.push((iat_k, JsonVal::Num(crate::num::i64_to_dec(c.iat))));
    ps.push((exp_k, JsonVal::Num(crate::num::i64_to_dec(c.exp))));
    match &c.sub {
        Some(s) => {
            ps.push((sub_k, JsonVal::Str(s.as_str().as_bytes_vec())));
        },
        None => {
            ps.push((sub_k, JsonVal::Null));
        },
    }
    let r = JsonVal::Obj(ps);
    proof {
        let want = claims_jval(*c)->Obj_0;
        lemma_members_concrete(ps@, want);
    }
    r
}

/// Unrolls the member-view recursion for a six-member object.
proof fn lemma_members_concrete(ps: Seq<(Vec<u8>, JsonVal)>, want: Seq<(Seq<u8>, JVal)>)
    requires
        ps.len() == 6,
        want.len() == 6,
        forall|i: int|
            0 <= i < 6 ==> (#[trigger] want[i]) == (ps[i].0@, crate::json::jval_of(ps[i].1)),
    ensures
        crate::json::jmembers_of(ps) == want,
{
    assert(crate::json::jmembers_of(Seq::<(Vec<u8>, JsonVal)>::empty()) =~= Seq::<(
        Seq<u8>,
        JVal,
    )>::empty());
    let s5 = ps.subrange(5, 6);
    let s4 = ps.subrange(4, 6);
    let s3 = ps.subrange(3, 6);
    let s2 = ps.subrange(2, 6);
    let s1 = ps.subrange(1, 6);
    assert(s5.subrange(1, 1) =~= Seq::<(Vec<u8>, JsonVal)>::empty());
    assert(s5[0] == ps[5]);
    assert(crate::json::jmembers_of(s5) =~= seq![want[5]]);
    assert(s4.subrange(1, 2) =~= s5);
    assert(s4[0] == ps[4]);
    assert(crate::json::jmembers_of(s4) =~= seq![want[4], want[5]]);
    assert(s3.subrange(1, 3) =~= s4);
    assert(s3[0] == ps[3]);
    assert(crate::json::jmembers_of(s3) =~= seq![want[3], want[4], want[5]]);
    assert(s2.subrange(1, 4) =~= s3);
    assert(s2[0] == ps[2]);
    assert(crate::json::jmembers_of(s2) =~= seq![want[2], want[3], want[4], want[5]]);
    assert(s1.subrange(1, 5) =~= s2);
    assert(s1[0] == ps[1]);
    assert(crate::json::jmembers_of(s1) =~= seq![want[1], want[2], want[3], want[4], want[5]]);
    assert(ps.subrange(1, 6) =~= s1);
    assert(ps[0] == ps[0]);
    assert(crate::json::jmembers_of(ps) =~= want);
}

} // verus!

verus! {

/// The parsed header document of a dot-joined token.
pub open spec fn jwt_header_of(t: Seq<u8>) -> Option<JVal> {
    let d1 = find_byte(t, 46, 0);
    if d1 == t.len() {
        None
    } else {
        match b64_decoding(true, false, t.subrange(0, d1)) {
            Some(h) => json_parse(h),
            None => None,
        }
    }
}

/// The key id named by a token's header, as string bytes.
pub open spec fn jwt_kid_of(t: Seq<u8>) -> Option<Seq<u8>> {
    match jwt_header_of(t) {
        Some(h) => match obj_get(h, k_kid()) {
            Some(JVal::Str(s)) => Some(s),
            _ => None,
        },
        None => None,
    }
}

/// Extracts the key id from an unverified token's header; any malformed
/// layer is a credential failure.
pub fn get_jwt_kid(token: &[u8]) -> (r: Result<String, Error>)
    ensures
        r matches Ok(s) ==> (jwt_kid_of(token@) matches Some(b) && valid_utf8(b) && s@
            == decode_utf8(b)),
        r matches Err(e) ==> e == Error::Unauthorized && !(jwt_kid_of(token@) matches Some(b)
            && valid_utf8(b)),
{
    let d1 = find_byte_x(token, 46, 0);
    if d1 >= token.len() {
        return Err(Error::Unauthorized);
    }
    let head = &token[0..d1];
    proof {
        assert(head@ == token@.subrange(0, d1 as int));
    }
    let hb = match b64_decode(head, true, false) {
        Some(h) => h,
        None => {
            return Err(Error::Unauthorized);
        },
    };
    let hj = match json_parse_x(hb.as_slice()) {
        Some(v) => v,
        None => {
            return Err(Error::Unauthorized);
        },
    };
    let kid_k: Vec<u8> = vec![107u8, 105, 100];
    proof {
        assert(kid_k@ =~= k_kid());
    }
    match get_field(&hj, kid_k.as_slice()) {
        Some(f) => match f {
            JsonVal::Str(t) => match bytes_to_string(bytes_clone(t)) {
                Ok(s) => Ok(s),
                Err(_) => Err(Error::Unauthorized),
            },
            _ => Err(Error::Unauthorized),
        },
        None => Err(Error::Unauthorized),
    }
}

/// The parsed payload document of a dot-joined token.
pub open spec fn jwt_payload_of(t: Seq<u8>) -> Option<JVal> {
    let d1 = find_byte(t, 46, 0);
    let d2 = find_byte(t, 46, d1 + 1);
    if d1 == t.len() || d2 == t.len() {
        None
    } else {
        match b64_decoding(true, false, t.subrange(d1 + 1, d2)) {
            Some(p) => json_parse(p),
            None => None,
        }
    }
}

/// Whether a token is acceptable at `now` against a public key: two dots,
/// an `RS256` header, a payload whose `exp` is within the sixty-second
/// leeway, and a signature the key verifies over everything before the
/// second dot.
pub open spec fn id_token_ok(t: Seq<u8>, key_der: Seq<u8>, now: int) -> bool {
    let d1 = find_byte(t, 46, 0);
    let d2 = find_byte(t, 46, d1 + 1);
    &&& d1 < t.len()
    &&& d2 < t.len()
    &&& (jwt_header_of(t) matches Some(h) && obj_get(h, k_alg()) == Some(
        JVal::Str(rs256_text()),
    ))
    &&& (jwt_payload_of(t) matches Some(p) && (exists|e: i64|
        obj_get(p, k_exp()) == Some(JVal::Num(i64_dec(e as int))) && e as int >= now - 60))
    &&& rs256_valid(key_der, t.subrange(0, d2), t.subrange(d2 + 1, t.len() as int))
}

/// The `email` claim of a token's payload, as string bytes.
pub open spec fn id_token_email(t: Seq<u8>) -> Option<Seq<u8>> {
    match jwt_payload_of(t) {
        Some(p) => match obj_get(p, k_email()) {
            Some(JVal::Str(s)) => Some(s),
            _ => None,
        },
        None => None,
    }
}

/// Verifies an identity token against a public key at time `now` and
/// returns its `email` claim; any failure in the trust path is a
/// credential failure.
pub fn verify_id_token(token: &[u8], key_der: &[u8], now: i64) -> (r: Result<String, Error>)
    requires
        now > i64::MIN + 60,
    ensures
        r matches Ok(em) ==> id_token_ok(token@, key_der@, now as int) && (id_token_email(token@)
            matches Some(b) && valid_utf8(b) && em@ == decode_utf8(b)),
        r matches Err(e) ==> e == Error::Unauthorized && !(id_token_ok(token@, key_der@, now as int)
            && (id_token_email(token@) matches Some(b) && valid_utf8(b))),
{
    let d1 = find_byte_x(token, 46, 0);
    if d1 >= token.len() {
        return Err(Error::Unauthorized);
    }
    let d2 = find_byte_x(token, 46, d1 + 1);
    if d2 >= token.len() {
        return Err(Error::Unauthorized);
    }
    // header: parse and check the algorithm
    let head = &token[0..d1];
    proof {
        assert(head@ == token@.subrange(0, d1 as int));
    }
    let hb = match b64_decode(head, true, false) {
        Some(h) => h,
        None => {
            return Err(Error::Unauthorized);
        },
    };
    let hj = match json_parse_x(hb.as_slice()) {
        Some(v) => v,
        None => {
            return Err(Error::Unauthorized);
        },
    };
    let alg_k: Vec<u8> = vec![97u8, 108, 103];
    let rs_t: Vec<u8> = vec![82u8, 83, 50, 53, 54];
    proof {
        assert(alg_k@ =~= k_alg());
        assert(rs_t@ =~= rs256_text());
    }
    let alg_ok: bool = match get_field(&hj, alg_k.as_slice()) {
        Some(f) => match f {
            JsonVal::Str(t) => crate::json::bytes_eq(t.as_slice(), rs_t.as_slice()),
            _ => false,
        },
        None => false,
    };
    if !alg_ok {
        return Err(Error::Unauthorized);
    }
    // payload: parse, check expiry with leeway, extract the email claim
    let pay = &token[d1 + 1..d2];
    proof {
        assert(pay@ == token@.subrange(d1 as int + 1, d2 as int));
    }
    let pb = match b64_decode(pay, true, false) {
        Some(p) => p,
        None => {
            return Err(Error::Unauthorized);
        },
    };
    let pj = match json_parse_x(pb.as_slice()) {
        Some(v) => v,
        None => {
            return Err(Error::Unauthorized);
        },
    };
    let exp_k: Vec<u8> = vec![101u8, 120, 112];
    proof {
        assert(exp_k@ =~= k_exp());
    }
    let ghost exp_field = obj_get(pj@, k_exp());
    let exp_ok: bool = match get_field(&pj, exp_k.as_slice()) {
        Some(f) => match crate::json::as_i64(f) {
            Some(e) => {
                proof {
                    if (e as int) < now - 60 {
                        assert forall|e2: i64|
                            !(exp_field == Some(JVal::Num(i64_dec(e2 as int))) && e2 as int >= now
                                - 60) by {
                            if exp_field == Some(JVal::Num(i64_dec(e2 as int))) {
                                crate::num::lemma_i64_dec_injective(e as int, e2 as int);
                            }
                        }
                    }
                }
                e >= now - 60
            },
            None => false,
        },
        None => false,
    };
    if !exp_ok {
        return Err(Error::Unauthorized);
    }
    // signature over everything before the second dot
    let input = &token[0..d2];
    let sig = &token[d2 + 1..token.len()];
    proof {
        assert(input@ == token@.subrange(0, d2 as int));
        assert(sig@ == token@.subrange(d2 as int + 1, token@.len() as int));
    }
    if !rs256_verify(sig, input, key_der) {
        return Err(Error::Unauthorized);
    }
    let email_k: Vec<u8> = vec![101u8, 109, 97, 105, 108];
    proof {
        assert(email_k@ =~= k_email());
    }
    match get_field(&pj, email_k.as_slice()) {
        Some(f) => match f {
            JsonVal::Str(t) => match bytes_to_string(bytes_clone(t)) {
                Ok(s) => Ok(s),
                Err(_) => Err(Error::Unauthorized),
            },
            _ => Err(Error::Unauthorized),
        },
        None => Err(Error::Unauthorized),
    }
}

} // verus!

verus! {

/// The serialized claim document parses back to exactly itself: what the
/// assertion says is what a reader of its payload recovers.
pub proof fn lemma_claims_roundtrip(c: Claims)
    ensures
        json_parse(json_text(claims_jval(c))) == Some(claims_jval(c)),
{
    let ms = claims_jval(c)->Obj_0;
    let s = json_text(claims_jval(c));
    let mt = crate::json::json_text_members(ms);
    assert(s == seq![123u8] + mt + seq![125u8]);
    assert(crate::json::primitive_members(ms)) by {
        assert forall|j: int| 0 <= j < ms.len() implies match (#[trigger] ms[j]).1 {
            JVal::Str(_) => true,
            JVal::Num(t) => exists|n: i64| t == i64_dec(n as int),
            JVal::Null => true,
            _ => false,
        } by {
            if j == 3 {
                assert(ms[3].1 == JVal::Num(i64_dec(c.iat as int)));
            } else if j == 4 {
                assert(ms[4].1 == JVal::Num(i64_dec(c.exp as int)));
            }
        }
    }
    assert(s[0] == 123);
    assert(!crate::json::is_ws(123));
    assert(crate::json::skip_ws(s, 0) == 0);
    assert(ms.len() == 6);
    assert(mt.len() > 0 && mt[0] == 34);
    assert(s[1] == mt[0]);
    assert(crate::json::skip_ws(s, 1) == 1);
    assert(crate::json::step_pos(0, 1, s.len() as int) == 1);
    assert(s.subrange(1, 1 + mt.len() as int + 1) =~= mt + seq![125u8]) by {
        assert forall|k: int| 0 <= k < mt.len() + 1 implies s.subrange(
            1,
            1 + mt.len() as int + 1,
        )[k] == (mt + seq![125u8])[k] by {
            assert(s.subrange(1, 1 + mt.len() as int + 1)[k] == s[1 + k]);
            assert(s[1 + k] == (seq![123u8] + mt + seq![125u8])[1 + k]);
        }
    }
    crate::json::lemma_obj_members_roundtrip(s, 1, ms);
    assert(crate::json::parse_obj_tail(s, 1) == Some((ms, s.len() as int)));
    assert(crate::json::parse_value(s, 0) == Some((claims_jval(c), s.len() as int)));
    assert(crate::json::skip_ws(s, s.len() as int) == s.len() as int);
}

/// The first position at or after `i` holding byte `b` is exactly the
/// first such position.
proof fn lemma_find_byte_exact(s: Seq<u8>, b: u8, i: int, j: int)
    requires
        0 <= i <= j <= s.len(),
        forall|k: int| i <= k < j ==> (#[trigger] s[k]) != b,
        j == s.len() || s[j] == b,
    ensures
        find_byte(s, b, i) == j,
    decreases j - i,
{
    if i < j {
        lemma_find_byte_exact(s, b, i + 1, j);
    }
}

/// No base64url digit is a dot.
proof fn lemma_b64url_no_dot(s: Seq<u8>)
    ensures
        forall|j: int|
            0 <= j < b64_encoding(true, false, s).len() ==> (#[trigger] b64_encoding(
                true,
                false,
                s,
            )[j]) != 46,
    decreases s.len(),
{
    assert(b64_encoding(true, false, s) =~= crate::b64::b64_body(true, s));
    lemma_b64_body_no_dot(s);
}

/// No digit of a base64url body is a dot.
proof fn lemma_b64_body_no_dot(s: Seq<u8>)
    ensures
        forall|j: int|
            0 <= j < crate::b64::b64_body(true, s).len() ==> (#[trigger] crate::b64::b64_body(
                true,
                s,
            )[j]) != 46,
    decreases s.len(),
{
    let body = crate::b64::b64_body(true, s);
    if s.len() >= 3 {
        let b0 = s[0];
        let b1 = s[1];
        let b2 = s[2];
        assert(b0 >> 2 < 64 && ((b0 & 3) << 4) | (b1 >> 4) < 64 && ((b1 & 15) << 2) | (b2 >> 6)
            < 64 && b2 & 63 < 64) by (bit_vector);
        lemma_b64_body_no_dot(s.skip(3));
        assert forall|j: int| 0 <= j < body.len() implies (#[trigger] body[j]) != 46 by {
            if j >= 4 {
                assert(body[j] == crate::b64::b64_body(true, s.skip(3))[j - 4]);
            } else {
                assert(crate::b64::b64_digit(true, b0 >> 2) != 46 && crate::b64::b64_digit(
                    true,
                    ((b0 & 3) << 4) | (b1 >> 4),
                ) != 46 && crate::b64::b64_digit(true, ((b1 & 15) << 2) | (b2 >> 6)) != 46
                    && crate::b64::b64_digit(true, b2 & 63) != 46);
            }
        }
    } else if s.len() == 2 {
        let b0 = s[0];
        let b1 = s[1];
        assert(b0 >> 2 < 64 && ((b0 & 3) << 4) | (b1 >> 4) < 64 && (b1 & 15) << 2 < 64)
            by (bit_vector);
    } else if s.len() == 1 {
        let b0 = s[0];
        assert(b0 >> 2 < 64 && (b0 & 3) << 4 < 64) by (bit_vector);
    }
}

/// Round trip through a signed assertion: whatever signature closes it,
/// the payload of `signing_input(c) . sig` parses back to exactly the
/// claim document that was signed. With [`build_assertion`]'s contract
/// this holds of every assertion the signer emits.
pub proof fn lemma_assertion_payload_roundtrip(c: Claims, sig: Seq<u8>)
    ensures
        jwt_payload_of(
            signing_input(c) + seq![46u8] + b64_encoding(true, false, sig),
        ) == Some(claims_jval(c)),
{
    let hseg = b64_encoding(true, false, json_text(header_jval()));
    let pseg = b64_encoding(true, false, json_text(claims_jval(c)));
    let sseg = b64_encoding(true, false, sig);
    let t = signing_input(c) + seq![46u8] + sseg;
    assert(t =~= hseg + seq![46u8] + pseg + seq![46u8] + sseg);
    let d1 = hseg.len() as int;
    let d2 = d1 + 1 + pseg.len() as int;
    lemma_b64url_no_dot(json_text(header_jval()));
    lemma_b64url_no_dot(json_text(claims_jval(c)));
    assert forall|k: int| 0 <= k < d1 implies (#[trigger] t[k]) != 46 by {
        assert(t[k] == hseg[k]);
    }
    assert(t[d1] == 46);
    lemma_find_byte_exact(t, 46, 0, d1);
    assert forall|k: int| d1 + 1 <= k < d2 implies (#[trigger] t[k]) != 46 by {
        assert(t[k] == pseg[k - (d1 + 1)]);
    }
    assert(t[d2] == 46);
    lemma_find_byte_exact(t, 46, d1 + 1, d2);
    assert(find_byte(t, 46, 0) == d1);
    assert(find_byte(t, 46, d1 + 1) == d2);
    assert(t.subrange(d1 + 1, d2) =~= pseg);
    crate::b64::lemma_b64_roundtrip(true, false, json_text(claims_jval(c)));
    assert(b64_decoding(true, false, pseg) == Some(json_text(claims_jval(c))));
    lemma_claims_roundtrip(c);
}

} // verus!
