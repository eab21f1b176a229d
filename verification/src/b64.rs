//! Base64 encoding and decoding, in the two shapes the client needs:
//! the standard padded alphabet (binary payloads in JSON bodies) and the
//! URL-safe unpadded alphabet (the segments of a JSON Web Token).
//!
//! Decoding is strict: padding must be canonical and the unused trailing
//! bits of a final partial group must be zero, so every byte sequence has
//! exactly one accepted encoding.

use vstd::prelude::*;

verus! {

/// The byte standing for the six-bit value `v` (0..63) in the chosen alphabet.
pub open spec fn b64_digit(url: bool, v: u8) -> u8 {
    if v < 26 {
        (65 + v) as u8  // 'A'..'Z'
    } else if v < 52 {
        (97 + (v - 26)) as u8  // 'a'..'z'
    } else if v < 62 {
        (48 + (v - 52)) as u8  // '0'..'9'
    } else if v == 62 {
        if url { 45 } else { 43 }  // '-' or '+'
    } else {
        if url { 95 } else { 47 }  // '_' or '/'
    }
}

/// The six-bit value of an alphabet byte, or 64 when `b` is not in the alphabet.
pub open spec fn b64_value(url: bool, b: u8) -> u8 {
    if 65 <= b && b <= 90 {
        (b - 65) as u8
    } else if 97 <= b && b <= 122 {
        (b - 97 + 26) as u8
    } else if 48 <= b && b <= 57 {
        (b - 48 + 52) as u8
    } else if b == (if url { 45u8 } else { 43u8 }) {
        62
    } else if b == (if url { 95u8 } else { 47u8 }) {
        63
    } else {
        64
    }
}

/// The four digits of a full three-byte group.
pub open spec fn b64_group3(url: bool, b0: u8, b1: u8, b2: u8) -> Seq<u8> {
    seq![
        b64_digit(url, b0 >> 2),
        b64_digit(url, ((b0 & 3) << 4) | (b1 >> 4)),
        b64_digit(url, ((b1 & 15) << 2) | (b2 >> 6)),
        b64_digit(url, b2 & 63),
    ]
}

/// The three digits of a trailing two-byte group.
pub open spec fn b64_tail2(url: bool, b0: u8, b1: u8) -> Seq<u8> {
    seq![
        b64_digit(url, b0 >> 2),
        b64_digit(url, ((b0 & 3) << 4) | (b1 >> 4)),
        b64_digit(url, (b1 & 15) << 2),
    ]
}

/// The two digits of a trailing one-byte group.
pub open spec fn b64_tail1(url: bool, b0: u8) -> Seq<u8> {
    seq![b64_digit(url, b0 >> 2), b64_digit(url, (b0 & 3) << 4)]
}

/// The digits (without padding) encoding `s`.
pub open spec fn b64_body(url: bool, s: Seq<u8>) -> Seq<u8>
    decreases s.len(),
{
    if s.len() >= 3 {
        b64_group3(url, s[0], s[1], s[2]) + b64_body(url, s.skip(3))
    } else if s.len() == 2 {
        b64_tail2(url, s[0], s[1])
    } else if s.len() == 1 {
        b64_tail1(url, s[0])
    } else {
        Seq::empty()
    }
}

/// The `'='` bytes completing a final group of `rem` input bytes.
pub open spec fn b64_padding(rem: int) -> Seq<u8> {
    if rem == 1 {
        seq![61u8, 61u8]
    } else if rem == 2 {
        seq![61u8]
    } else {
        Seq::empty()
    }
}

/// The full encoding of `s`: its digits, padded when `pad` is set.
pub open spec fn b64_encoding(url: bool, pad: bool, s: Seq<u8>) -> Seq<u8> {
    b64_body(url, s) + (if pad {
        b64_padding(s.len() as int % 3)
    } else {
        Seq::empty()
    })
}

/// The bytes encoded by a padding-free digit string, or `None` when it is
/// not a canonical encoding.
pub open spec fn b64_decode_body(url: bool, s: Seq<u8>) -> Option<Seq<u8>>
    decreases s.len(),
{
    if s.len() == 0 {
        Some(Seq::empty())
    } else if s.len() == 1 {
        None
    } else if s.len() == 2 {
        let v0 = b64_value(url, s[0]);
        let v1 = b64_value(url, s[1]);
        if v0 < 64 && v1 < 64 && v1 & 15 == 0 {
            Some(seq![(v0 << 2) | (v1 >> 4)])
        } else {
            None
        }
    } else if s.len() == 3 {
        let v0 = b64_value(url, s[0]);
        let v1 = b64_value(url, s[1]);
        let v2 = b64_value(url, s[2]);
        if v0 < 64 && v1 < 64 && v2 < 64 && v2 & 3 == 0 {
            Some(seq![(v0 << 2) | (v1 >> 4), ((v1 & 15) << 4) | (v2 >> 2)])
        } else {
            None
        }
    } else {
        let v0 = b64_value(url, s[0]);
        let v1 = b64_value(url, s[1]);
        let v2 = b64_value(url, s[2]);
        let v3 = b64_value(url, s[3]);
        if v0 < 64 && v1 < 64 && v2 < 64 && v3 < 64 {
            match b64_decode_body(url, s.skip(4)) {
                Some(rest) => Some(
                    seq![
                        (v0 << 2) | (v1 >> 4),
                        ((v1 & 15) << 4) | (v2 >> 2),
                        ((v2 & 3) << 6) | v3,
                    ] + rest,
                ),
                None => None,
            }
        } else {
            None
        }
    }
}

/// How many trailing `'='` bytes close `s` (at most two).
pub open spec fn b64_pad_count(s: Seq<u8>) -> int {
    if s.len() >= 2 && s[s.len() - 1] == 61 && s[s.len() - 2] == 61 {
        2
    } else if s.len() >= 1 && s[s.len() - 1] == 61 {
        1
    } else {
        0
    }
}

/// The bytes encoded by `s` under the chosen alphabet and padding rule,
/// or `None` when `s` is not a canonical encoding.
pub open spec fn b64_decoding(url: bool, pad: bool, s: Seq<u8>) -> Option<Seq<u8>> {
    if pad {
        if s.len() % 4 == 0 {
            b64_decode_body(url, s.take(s.len() - b64_pad_count(s)))
        } else {
            None
        }
    } else {
        b64_decode_body(url, s)
    }
}

/// The alphabet byte for the six-bit value `v`.
fn b64_digit_x(url: bool, v: u8) -> (r: u8)
    requires
        v < 64,
    ensures
        r == b64_digit(url, v),
{
    if v < 26 {
        65 + v
    } else if v < 52 {
        97 + (v - 26)
    } else if v < 62 {
        48 + (v - 52)
    } else if v == 62 {
        if url { 45 } else { 43 }
    } else {
        if url { 95 } else { 47 }
    }
}

/// The six-bit value of an alphabet byte, 64 when `b` is not in the alphabet.
fn b64_value_x(url: bool, b: u8) -> (r: u8)
    ensures
        r == b64_value(url, b),
{
    if 65 <= b && b <= 90 {
        b - 65
    } else if 97 <= b && b <= 122 {
        b - 97 + 26
    } else if 48 <= b && b <= 57 {
        b - 48 + 52
    } else if b == (if url { 45u8 } else { 43u8 }) {
        62
    } else if b == (if url { 95u8 } else { 47u8 }) {
        63
    } else {
        64
    }
}

/// Encodes `s` with the chosen alphabet, appending `'='` padding when `pad`.
pub fn b64_encode(s: &[u8], url: bool, pad: bool) -> (r: Vec<u8>)
    ensures
        r@ == b64_encoding(url, pad, s@),
{
    let mut r: Vec<u8> = Vec::new();
    let mut i: usize = 0;
    proof {
        assert(s@.skip(0) =~= s@);
        assert(Seq::<u8>::empty() + b64_body(url, s@) =~= b64_body(url, s@));
    }
    while s.len() - i >= 3
        invariant
            i % 3 == 0,
            i <= s.len(),
            r@ + b64_body(url, s@.skip(i as int)) == b64_body(url, s@),
        decreases s.len() - i,
    {
        let b0 = s[i];
        let b1 = s[i + 1];
        let b2 = s[i + 2];
        proof {
            assert(b0 >> 2 < 64 && ((b0 & 3) << 4) | (b1 >> 4) < 64 && ((b1 & 15) << 2) | (b2
                >> 6) < 64 && b2 & 63 < 64) by (bit_vector);
            assert(s@.skip(i as int).len() >= 3);
            assert(s@.skip(i as int)[0] == b0 && s@.skip(i as int)[1] == b1 && s@.skip(i as int)[2]
                == b2);
            assert(s@.skip(i as int).skip(3) =~= s@.skip(i as int + 3));
        }
        r.push(b64_digit_x(url, b0 >> 2));
        r.push(b64_digit_x(url, ((b0 & 3) << 4) | (b1 >> 4)));
        r.push(b64_digit_x(url, ((b1 & 15) << 2) | (b2 >> 6)));
        r.push(b64_digit_x(url, b2 & 63));
        i += 3;
        proof {
            assert(r@ + b64_body(url, s@.skip(i as int)) =~= b64_body(url, s@));
        }
    }
    let rem: usize = s.len() - i;
    if rem == 2 {
        let b0 = s[i];
        let b1 = s[i + 1];
        proof {
            assert(b0 >> 2 < 64 && ((b0 & 3) << 4) | (b1 >> 4) < 64 && (b1 & 15) << 2 < 64)
                by (bit_vector);
            assert(s@.skip(i as int) =~= seq![b0, b1]);
        }
        r.push(b64_digit_x(url, b0 >> 2));
        r.push(b64_digit_x(url, ((b0 & 3) << 4) | (b1 >> 4)));
        r.push(b64_digit_x(url, (b1 & 15) << 2));
        if pad {
            r.push(61);
        }
    } else if rem == 1 {
        let b0 = s[i];
        proof {
            assert(b0 >> 2 < 64 && (b0 & 3) << 4 < 64) by (bit_vector);
            assert(s@.skip(i as int) =~= seq![b0]);
        }
        r.push(b64_digit_x(url, b0 >> 2));
        r.push(b64_digit_x(url, (b0 & 3) << 4));
        if pad {
            r.push(61);
            r.push(61);
        }
    } else {
        proof {
            assert(s@.skip(i as int) =~= Seq::<u8>::empty());
        }
    }
    proof {
        let sl = s@.len() as int;
        let gi = i as int;
        let grem = rem as int;
        assert(sl % 3 == grem) by (nonlinear_arith)
            requires
                gi % 3 == 0 && 0 <= grem < 3 && sl == gi + grem,
        ;
        assert(r@ =~= b64_encoding(url, pad, s@));
    }
    r
}

/// Decodes `s` under the chosen alphabet and padding rule; `None` exactly
/// when `s` is not a canonical encoding.
pub fn b64_decode(s: &[u8], url: bool, pad: bool) -> (r: Option<Vec<u8>>)
    ensures
        match r {
            Some(v) => b64_decoding(url, pad, s@) == Some(v@),
            None => b64_decoding(url, pad, s@) is None,
        },
{
    let n = s.len();
    let core_len: usize;
    if pad {
        if n % 4 != 0 {
            return None;
        }
        if n >= 2 && s[n - 1] == 61 && s[n - 2] == 61 {
            core_len = n - 2;
        } else if n >= 1 && s[n - 1] == 61 {
            core_len = n - 1;
        } else {
            core_len = n;
        }
    } else {
        core_len = n;
    }
    let ghost core: Seq<u8> = s@.take(core_len as int);
    proof {
        if pad {
            assert(b64_pad_count(s@) == n - core_len);
        } else {
            assert(core =~= s@);
        }
        assert(b64_decoding(url, pad, s@) == b64_decode_body(url, core));
    }
    let mut r: Vec<u8> = Vec::new();
    let mut i: usize = 0;
    proof {
        assert(core.skip(0) =~= core);
        assert forall|rest: Seq<u8>|
            b64_decode_body(url, core.skip(0)) == Some(rest) implies b64_decode_body(url, core)
            == Some(Seq::<u8>::empty() + rest) by {
            assert(Seq::<u8>::empty() + rest =~= rest);
        }
    }
    while core_len - i >= 4
        invariant
            i % 4 == 0,
            i <= core_len <= s.len(),
            core == s@.take(core_len as int),
            b64_decoding(url, pad, s@) == b64_decode_body(url, core),
            forall|rest: Seq<u8>|
                b64_decode_body(url, core.skip(i as int)) == Some(rest) ==> b64_decode_body(
                    url,
                    core,
                ) == Some(r@ + rest),
            b64_decode_body(url, core.skip(i as int)) is None ==> b64_decode_body(url, core)
                is None,
        decreases core_len - i,
    {
        let v0 = b64_value_x(url, s[i]);
        let v1 = b64_value_x(url, s[i + 1]);
        let v2 = b64_value_x(url, s[i + 2]);
        let v3 = b64_value_x(url, s[i + 3]);
        proof {
            assert(core.skip(i as int).len() >= 4);
            assert(core.skip(i as int)[0] == s@[i as int] && core.skip(i as int)[1] == s@[i as int
                + 1] && core.skip(i as int)[2] == s@[i as int + 2] && core.skip(i as int)[3]
                == s@[i as int + 3]);
            assert(core.skip(i as int).skip(4) =~= core.skip(i as int + 4));
        }
        if !(v0 < 64 && v1 < 64 && v2 < 64 && v3 < 64) {
            proof {
                assert(b64_decode_body(url, core.skip(i as int)) is None);
            }
            return None;
        }
        let ghost i0 = i as int;
        let ghost r0 = r@;
        r.push((v0 << 2) | (v1 >> 4));
        r.push(((v1 & 15) << 4) | (v2 >> 2));
        r.push(((v2 & 3) << 6) | v3);
        i += 4;
        proof {
            let group = seq![(v0 << 2) | (v1 >> 4), ((v1 & 15) << 4) | (v2 >> 2), ((v2 & 3) << 6)
                | v3];
            assert(r@ =~= r0 + group);
            assert forall|rest: Seq<u8>|
                b64_decode_body(url, core.skip(i as int)) == Some(rest) implies b64_decode_body(
                url,
                core,
            ) == Some(r@ + rest) by {
                assert(b64_decode_body(url, core.skip(i0)) == Some(group + rest));
                assert(r0 + (group + rest) =~= r@ + rest);
            }
            if b64_decode_body(url, core.skip(i as int)) is None {
                assert(b64_decode_body(url, core.skip(i0)) is None);
            }
        }
    }
    let rem: usize = core_len - i;
    proof {
        assert(core.skip(i as int).len() == rem as int);
    }
    if rem == 0 {
        proof {
            assert(core.skip(i as int) =~= Seq::<u8>::empty());
            assert(r@ + Seq::<u8>::empty() =~= r@);
        }
        Some(r)
    } else if rem == 2 {
        let v0 = b64_value_x(url, s[i]);
        let v1 = b64_value_x(url, s[i + 1]);
        proof {
            assert(core.skip(i as int)[0] == s@[i as int] && core.skip(i as int)[1] == s@[i as int
                + 1]);
        }
        if v0 < 64 && v1 < 64 && v1 & 15 == 0 {
            let ghost r0 = r@;
            r.push((v0 << 2) | (v1 >> 4));
            proof {
                assert(b64_decode_body(url, core.skip(i as int)) == Some(
                    seq![(v0 << 2) | (v1 >> 4)],
                ));
                assert(r0 + seq![(v0 << 2) | (v1 >> 4)] =~= r@);
            }
            Some(r)
        } else {
            proof {
                assert(b64_decode_body(url, core.skip(i as int)) is None);
            }
            None
        }
    } else if rem == 3 {
        let v0 = b64_value_x(url, s[i]);
        let v1 = b64_value_x(url, s[i + 1]);
        let v2 = b64_value_x(url, s[i + 2]);
        proof {
            assert(core.skip(i as int)[0] == s@[i as int] && core.skip(i as int)[1] == s@[i as int
                + 1] && core.skip(i as int)[2] == s@[i as int + 2]);
        }
        if v0 < 64 && v1 < 64 && v2 < 64 && v2 & 3 == 0 {
            let ghost r0 = r@;
            r.push((v0 << 2) | (v1 >> 4));
            r.push(((v1 & 15) << 4) | (v2 >> 2));
            proof {
                assert(b64_decode_body(url, core.skip(i as int)) == Some(
                    seq![(v0 << 2) | (v1 >> 4), ((v1 & 15) << 4) | (v2 >> 2)],
                ));
                assert(r0 + seq![(v0 << 2) | (v1 >> 4), ((v1 & 15) << 4) | (v2 >> 2)] =~= r@);
            }
            Some(r)
        } else {
            proof {
                assert(b64_decode_body(url, core.skip(i as int)) is None);
            }
            None
        }
    } else {
        proof {
            assert(b64_decode_body(url, core.skip(i as int)) is None);
        }
        None
    }
}

/// Reading a digit back gives the six-bit value it was written for.
proof fn lemma_value_of_digit(url: bool, v: u8)
    requires
        v < 64,
    ensures
        b64_value(url, b64_digit(url, v)) == v,
{
}

/// Decoding the digit body of an encoding recovers the input bytes.
proof fn lemma_decode_body_of_body(url: bool, s: Seq<u8>)
    ensures
        b64_decode_body(url, b64_body(url, s)) == Some(s),
    decreases s.len(),
{
    if s.len() >= 3 {
        let b0 = s[0];
        let b1 = s[1];
        let b2 = s[2];
        let d0 = b0 >> 2;
        let d1 = ((b0 & 3) << 4) | (b1 >> 4);
        let d2 = ((b1 & 15) << 2) | (b2 >> 6);
        let d3 = b2 & 63;
        assert(d0 < 64 && d1 < 64 && d2 < 64 && d3 < 64) by (bit_vector)
            requires
                d0 == b0 >> 2 && d1 == ((b0 & 3) << 4) | (b1 >> 4) && d2 == ((b1 & 15) << 2) | (b2
                    >> 6) && d3 == b2 & 63,
        ;
        lemma_value_of_digit(url, d0);
        lemma_value_of_digit(url, d1);
        lemma_value_of_digit(url, d2);
        lemma_value_of_digit(url, d3);
        lemma_decode_body_of_body(url, s.skip(3));
        let e = b64_body(url, s);
        assert(e.len() >= 4);
        assert(e[0] == b64_digit(url, d0) && e[1] == b64_digit(url, d1) && e[2] == b64_digit(
            url,
            d2,
        ) && e[3] == b64_digit(url, d3));
        assert(e.skip(4) =~= b64_body(url, s.skip(3)));
        assert((d0 << 2) | (d1 >> 4) == b0 && ((d1 & 15) << 4) | (d2 >> 2) == b1 && ((d2 & 3) << 6)
            | d3 == b2) by (bit_vector)
            requires
                d0 == b0 >> 2 && d1 == ((b0 & 3) << 4) | (b1 >> 4) && d2 == ((b1 & 15) << 2) | (b2
                    >> 6) && d3 == b2 & 63,
        ;
        assert(seq![b0, b1, b2] + s.skip(3) =~= s);
    } else if s.len() == 2 {
        let b0 = s[0];
        let b1 = s[1];
        let d0 = b0 >> 2;
        let d1 = ((b0 & 3) << 4) | (b1 >> 4);
        let d2 = (b1 & 15) << 2;
        assert(d0 < 64 && d1 < 64 && d2 < 64 && d2 & 3 == 0) by (bit_vector)
            requires
                d0 == b0 >> 2 && d1 == ((b0 & 3) << 4) | (b1 >> 4) && d2 == (b1 & 15) << 2,
        ;
        lemma_value_of_digit(url, d0);
        lemma_value_of_digit(url, d1);
        lemma_value_of_digit(url, d2);
        assert((d0 << 2) | (d1 >> 4) == b0 && ((d1 & 15) << 4) | (d2 >> 2) == b1) by (bit_vector)
            requires
                d0 == b0 >> 2 && d1 == ((b0 & 3) << 4) | (b1 >> 4) && d2 == (b1 & 15) << 2,
        ;
        assert(seq![b0, b1] =~= s);
    } else if s.len() == 1 {
        let b0 = s[0];
        let d0 = b0 >> 2;
        let d1 = (b0 & 3) << 4;
        assert(d0 < 64 && d1 < 64 && d1 & 15 == 0) by (bit_vector)
            requires
                d0 == b0 >> 2 && d1 == (b0 & 3) << 4,
        ;
        lemma_value_of_digit(url, d0);
        lemma_value_of_digit(url, d1);
        assert((d0 << 2) | (d1 >> 4) == b0) by (bit_vector)
            requires
                d0 == b0 >> 2 && d1 == (b0 & 3) << 4,
        ;
        assert(seq![b0] =~= s);
    } else {
        assert(b64_body(url, s) =~= Seq::<u8>::empty());
        assert(s =~= Seq::<u8>::empty());
    }
}

/// The digit body never ends in the padding byte.
proof fn lemma_body_no_pad_tail(url: bool, s: Seq<u8>)
    ensures
        forall|j: int|
            0 <= j < b64_body(url, s).len() ==> #[trigger] b64_body(url, s)[j] != 61,
    decreases s.len(),
{
    if s.len() >= 3 {
        let b0 = s[0];
        let b1 = s[1];
        let b2 = s[2];
        assert(b0 >> 2 < 64 && ((b0 & 3) << 4) | (b1 >> 4) < 64 && ((b1 & 15) << 2) | (b2 >> 6)
            < 64 && b2 & 63 < 64) by (bit_vector);
        lemma_body_no_pad_tail(url, s.skip(3));
        assert forall|j: int| 0 <= j < b64_body(url, s).len() implies #[trigger] b64_body(
            url,
            s,
        )[j] != 61 by {
            if j >= 4 {
                assert(b64_body(url, s)[j] == b64_body(url, s.skip(3))[j - 4]);
            } else {
                assert(b64_digit(url, b0 >> 2) != 61 && b64_digit(
                    url,
                    ((b0 & 3) << 4) | (b1 >> 4),
                ) != 61 && b64_digit(url, ((b1 & 15) << 2) | (b2 >> 6)) != 61 && b64_digit(
                    url,
                    b2 & 63,
                ) != 61);
            }
        }
    } else if s.len() == 2 {
        let b0 = s[0];
        let b1 = s[1];
        assert(b0 >> 2 < 64 && ((b0 & 3) << 4) | (b1 >> 4) < 64 && (b1 & 15) << 2 < 64)
            by (bit_vector);
    } else if s.len() == 1 {
        let b0 = s[0];
        assert(b0 >> 2 < 64 && (b0 & 3) << 4 < 64) by (bit_vector);
    }
}

/// Round trip: decoding an encoding gives back exactly the encoded bytes,
/// for either alphabet, with or without padding.
pub proof fn lemma_b64_roundtrip(url: bool, pad: bool, s: Seq<u8>)
    ensures
        b64_decoding(url, pad, b64_encoding(url, pad, s)) == Some(s),
{
    let body = b64_body(url, s);
    lemma_decode_body_of_body(url, s);
    lemma_body_no_pad_tail(url, s);
    assert(body.len() + 2 == (s.len() as int / 3) * 4 + 4 || body.len() + 1 == (s.len() as int / 3)
        * 4 + 4 || body.len() == (s.len() as int / 3) * 4) by {
        lemma_body_len(url, s);
    }
    if pad {
        let e = b64_encoding(url, pad, s);
        let rem = s.len() as int % 3;
        if rem == 1 {
            assert(e[e.len() - 1] == 61 && e[e.len() - 2] == 61);
            assert(b64_pad_count(e) == 2);
            assert(e.take(e.len() - 2) =~= body);
        } else if rem == 2 {
            assert(e[e.len() - 1] == 61);
            assert(e[e.len() - 2] == body[body.len() - 1]);
            assert(b64_pad_count(e) == 1);
            assert(e.take(e.len() - 1) =~= body);
        } else {
            if e.len() > 0 {
                assert(e[e.len() - 1] == body[body.len() - 1]);
            }
            assert(b64_pad_count(e) == 0);
            assert(e.take(e.len() as int) =~= body);
        }
        lemma_body_len(url, s);
        assert(e.len() % 4 == 0);
    } else {
        assert(b64_encoding(url, pad, s) =~= body);
    }
}

/// The digit body's length: four digits per full group, three then two for
/// a two- or one-byte tail.
proof fn lemma_body_len(url: bool, s: Seq<u8>)
    ensures
        s.len() % 3 == 0 ==> b64_body(url, s).len() == (s.len() / 3) * 4,
        s.len() % 3 == 1 ==> b64_body(url, s).len() == (s.len() / 3) * 4 + 2,
        s.len() % 3 == 2 ==> b64_body(url, s).len() == (s.len() / 3) * 4 + 3,
    decreases s.len(),
{
    if s.len() >= 3 {
        lemma_body_len(url, s.skip(3));
        assert(s.skip(3).len() == s.len() - 3);
    }
}

} // verus!
