//! Decimal text for integers: formatting, parsing, and the canonical-form
//! facts connecting the two.
//!
//! Token lifetimes (`expires_in`, `iat`, `exp`), cache ages and query
//! parameters all travel as decimal text inside JSON or URLs; these are
//! the exact-contract helpers for that text.

use vstd::prelude::*;

verus! {

/// The decimal digits of a natural number, most significant first.
pub open spec fn u64_dec(n: nat) -> Seq<u8>
    decreases n,
{
    if n < 10 {
        seq![(48 + n) as u8]
    } else {
        u64_dec(n / 10) + seq![(48 + n % 10) as u8]
    }
}

/// The decimal text of an integer: a minus sign for negatives, then the
/// digits of its magnitude.
pub open spec fn i64_dec(n: int) -> Seq<u8> {
    if n >= 0 {
        u64_dec(n as nat)
    } else {
        seq![45u8] + u64_dec((-n) as nat)
    }
}

/// The value of a digit string, read most significant first.
pub open spec fn dec_val(s: Seq<u8>) -> int
    decreases s.len(),
{
    if s.len() == 0 {
        0
    } else {
        dec_val(s.drop_last()) * 10 + (s.last() - 48)
    }
}

/// A canonical decimal: nonempty, all digits, no leading zero (except the
/// single digit zero itself).
pub open spec fn is_canon_dec(s: Seq<u8>) -> bool {
    s.len() > 0 && (forall|i: int| 0 <= i < s.len() ==> 48 <= #[trigger] s[i] <= 57) && (s[0] != 48
        || s.len() == 1)
}

/// Formatted numbers are canonical and read back to their value.
pub proof fn lemma_u64_dec_props(n: nat)
    ensures
        is_canon_dec(u64_dec(n)),
        dec_val(u64_dec(n)) == n,
    decreases n,
{
    assert(dec_val(Seq::<u8>::empty()) == 0);
    if n < 10 {
        let s = u64_dec(n);
        assert(s[0] == 48 + n);
        assert(s.drop_last() =~= Seq::<u8>::empty());
        assert(dec_val(s) == dec_val(Seq::<u8>::empty()) * 10 + (s.last() - 48));
    } else {
        lemma_u64_dec_props(n / 10);
        let p = u64_dec(n / 10);
        let s = u64_dec(n);
        assert(0 <= n % 10 < 10) by (nonlinear_arith);
        assert(s.drop_last() =~= p);
        assert(s.last() == 48 + n % 10);
        assert(dec_val(s) == dec_val(p) * 10 + ((48 + n % 10) - 48));
        assert((n / 10) * 10 + n % 10 == n) by (nonlinear_arith);
        assert(s[0] == p[0]);
        assert(n / 10 >= 1) by (nonlinear_arith)
            requires
                n >= 10,
        ;
        if p.len() == 1 {
            assert(p.drop_last() =~= Seq::<u8>::empty());
            assert(dec_val(p) == dec_val(Seq::<u8>::empty()) * 10 + (p.last() - 48));
            assert(p[0] == p.last());
            assert(p[0] != 48);
        }
        assert forall|i: int| 0 <= i < s.len() implies 48 <= #[trigger] s[i] <= 57 by {
            if i < p.len() {
                assert(s[i] == p[i]);
            } else {
                assert(s[i] == 48 + n % 10);
            }
        }
    }
}

/// A canonical digit string with value `1` or more never starts with `0`,
/// so its value determines it: formatting its value gives it back.
pub proof fn lemma_canon_dec_complete(t: Seq<u8>)
    requires
        is_canon_dec(t),
    ensures
        0 <= dec_val(t),
        u64_dec(dec_val(t) as nat) == t,
    decreases t.len(),
{
    assert(dec_val(Seq::<u8>::empty()) == 0);
    if t.len() == 1 {
        assert(t.drop_last() =~= Seq::<u8>::empty());
        assert(dec_val(t) == dec_val(Seq::<u8>::empty()) * 10 + (t.last() - 48));
        assert(t.last() == t[0]);
        assert(u64_dec((t[0] - 48) as nat) =~= t);
    } else {
        let p = t.drop_last();
        assert forall|i: int| 0 <= i < p.len() implies 48 <= #[trigger] p[i] <= 57 by {
            assert(p[i] == t[i]);
        }
        assert(p[0] == t[0]);
        assert(is_canon_dec(p));
        lemma_canon_dec_complete(p);
        lemma_dec_val_pos(p);
        let v = dec_val(t);
        assert(v == dec_val(p) * 10 + (t.last() - 48));
        assert(dec_val(p) >= 1);
        assert(v >= 10 && v / 10 == dec_val(p) && v % 10 == t.last() - 48) by (nonlinear_arith)
            requires
                v == dec_val(p) * 10 + (t.last() - 48) && dec_val(p) >= 1 && 48 <= t.last() <= 57,
        ;
        assert(u64_dec(v as nat) =~= u64_dec(dec_val(p) as nat) + seq![t.last()]);
        assert(u64_dec(v as nat) =~= t);
    }
}

/// A canonical digit string without a leading zero has value `1` or more.
proof fn lemma_dec_val_pos(t: Seq<u8>)
    requires
        is_canon_dec(t),
        t[0] != 48,
    ensures
        dec_val(t) >= 1,
    decreases t.len(),
{
    assert(dec_val(Seq::<u8>::empty()) == 0);
    if t.len() == 1 {
        assert(t.drop_last() =~= Seq::<u8>::empty());
        assert(dec_val(t) == dec_val(Seq::<u8>::empty()) * 10 + (t.last() - 48));
        assert(t.last() == t[0]);
    } else {
        let p = t.drop_last();
        assert forall|i: int| 0 <= i < p.len() implies 48 <= #[trigger] p[i] <= 57 by {
            assert(p[i] == t[i]);
        }
        assert(p[0] == t[0]);
        assert(is_canon_dec(p));
        lemma_dec_val_pos(p);
        assert(dec_val(t) == dec_val(p) * 10 + (t.last() - 48));
        assert(dec_val(p) * 10 >= 10) by (nonlinear_arith)
            requires
                dec_val(p) >= 1,
        ;
    }
}

/// Formats a natural number in decimal.
pub fn u64_to_dec(n: u64) -> (r: Vec<u8>)
    ensures
        r@ == u64_dec(n as nat),
    decreases n,
{
    if n < 10 {
        let mut r: Vec<u8> = Vec::new();
        r.push(48 + (n as u8));
        proof {
            assert(r@ =~= u64_dec(n as nat));
        }
        r
    } else {
        proof {
            assert(n / 10 < n) by (nonlinear_arith)
                requires
                    n >= 10,
            ;
        }
        let mut r = u64_to_dec(n / 10);
        r.push(48 + ((n % 10) as u8));
        proof {
            assert(r@ =~= u64_dec(n as nat));
        }
        r
    }
}

/// Formats a signed integer in decimal.
pub fn i64_to_dec(n: i64) -> (r: Vec<u8>)
    ensures
        r@ == i64_dec(n as int),
{
    if n >= 0 {
        u64_to_dec(n as u64)
    } else {
        let mag: u64 = if n == i64::MIN {
            9223372036854775808u64
        } else {
            (-n) as u64
        };
        let mut r: Vec<u8> = Vec::new();
        r.push(45);
        let mut d = u64_to_dec(mag);
        r.append(&mut d);
        proof {
            assert(r@ =~= i64_dec(n as int));
        }
        r
    }
}

/// Reads a canonical decimal from `s[start..end]`; `None` exactly when
/// that range is not the canonical decimal text of any `u64`.
pub fn dec_to_u64_at(s: &[u8], start: usize, end: usize) -> (r: Option<u64>)
    requires
        start <= end <= s.len(),
    ensures
        match r {
            Some(n) => s@.subrange(start as int, end as int) == u64_dec(n as nat),
            None => forall|n: u64| s@.subrange(start as int, end as int) != u64_dec(n as nat),
        },
{
    let ghost t = s@.subrange(start as int, end as int);
    let n = end;
    if start >= n {
        proof {
            assert forall|m: u64| t != u64_dec(m as nat) by {
                lemma_u64_dec_props(m as nat);
            }
        }
        return None;
    }
    if s[start] == 48 && n - start > 1 {
        // leading zero: not canonical
        proof {
            assert(t[0] == 48 && t.len() > 1);
            assert forall|m: u64| t != u64_dec(m as nat) by {
                lemma_u64_dec_props(m as nat);
            }
        }
        return None;
    }
    let mut acc: u64 = 0;
    let mut over: bool = false;
    let mut k: usize = start;
    while k < n
        invariant
            n == end,
            start <= k <= n <= s.len(),
            t == s@.subrange(start as int, n as int),
            forall|i: int| start <= i < k ==> 48 <= #[trigger] s@[i] <= 57,
            !over ==> acc as int == dec_val(s@.subrange(start as int, k as int)),
            over ==> dec_val(s@.subrange(start as int, k as int)) > u64::MAX as int,
        decreases n - k,
    {
        let c = s[k];
        if !(48 <= c && c <= 57) {
            proof {
                assert(t[k - start] == c);
                assert forall|m: u64| t != u64_dec(m as nat) by {
                    lemma_u64_dec_props(m as nat);
                }
            }
            return None;
        }
        let d = c - 48;
        proof {
            assert(s@.subrange(start as int, k as int + 1).drop_last() =~= s@.subrange(
                start as int,
                k as int,
            ));
            assert(s@.subrange(start as int, k as int + 1).last() == c);
        }
        if over || acc > (u64::MAX - (d as u64)) / 10 {
            proof {
                let pv = dec_val(s@.subrange(start as int, k as int));
                let nv = dec_val(s@.subrange(start as int, k as int + 1));
                assert(nv == pv * 10 + d);
                if over {
                    assert(nv > u64::MAX as int) by (nonlinear_arith)
                        requires
                            nv == pv * 10 + d && pv > u64::MAX as int && d >= 0,
                    ;
                } else {
                    assert(nv > u64::MAX as int) by (nonlinear_arith)
                        requires
                            nv == pv * 10 + d && pv == acc as int && acc > (u64::MAX - (d as u64))
                                / 10 && 0 <= d <= 9,
                    ;
                }
            }
            over = true;
        } else {
            proof {
                assert(acc * 10 + d <= u64::MAX) by (nonlinear_arith)
                    requires
                        0 <= acc <= (u64::MAX - (d as u64)) / 10 && 0 <= d <= 9,
                ;
            }
            acc = acc * 10 + (d as u64);
        }
        k += 1;
    }
    proof {
        assert(s@.subrange(start as int, k as int) =~= t);
    }
    if over {
        proof {
            assert forall|m: u64| t != u64_dec(m as nat) by {
                lemma_u64_dec_props(m as nat);
            }
        }
        None
    } else {
        proof {
            assert(is_canon_dec(t));
            lemma_canon_dec_complete(t);
        }
        Some(acc)
    }
}

/// Reads a canonical signed decimal; `None` exactly when `s` is not the
/// canonical decimal text of any `i64`.
pub fn dec_to_i64(s: &[u8]) -> (r: Option<i64>)
    ensures
        match r {
            Some(n) => s@ == i64_dec(n as int),
            None => forall|n: i64| s@ != i64_dec(n as int),
        },
{
    if s.len() > 0 && s[0] == 45 {
        let m = dec_to_u64_at(s, 1, s.len());
        proof {
            assert(s@ =~= seq![45u8] + s@.subrange(1, s@.len() as int));
        }
        match m {
            Some(mag) => {
                if mag == 0 {
                    proof {
                        assert forall|n: i64| s@ != i64_dec(n as int) by {
                            lemma_u64_dec_props(0);
                            if n < 0 {
                                lemma_u64_dec_props((-(n as int)) as nat);
                                if s@ == i64_dec(n as int) {
                                    assert(s@.subrange(1, s@.len() as int) =~= u64_dec(
                                        (-(n as int)) as nat,
                                    ));
                                }
                            } else {
                                lemma_u64_dec_props(n as nat);
                                if s@ == i64_dec(n as int) {
                                    assert(s@[0] == 45 && u64_dec(n as nat)[0] >= 48);
                                }
                            }
                        }
                    }
                    None
                } else if mag <= 9223372036854775808u64 {
                    let r: i64 = if mag == 9223372036854775808u64 {
                        i64::MIN
                    } else {
                        -(mag as i64)
                    };
                    proof {
                        assert(s@ =~= i64_dec(r as int));
                    }
                    Some(r)
                } else {
                    proof {
                        assert forall|n: i64| s@ != i64_dec(n as int) by {
                            lemma_u64_dec_props(mag as nat);
                            if n < 0 {
                                lemma_u64_dec_props((-(n as int)) as nat);
                                if s@ == i64_dec(n as int) {
                                    assert(s@.subrange(1, s@.len() as int) =~= u64_dec(
                                        (-(n as int)) as nat,
                                    ));
                                    assert(dec_val(u64_dec((-(n as int)) as nat)) == dec_val(
                                        u64_dec(mag as nat),
                                    ));
                                }
                            } else {
                                lemma_u64_dec_props(n as nat);
                                if s@ == i64_dec(n as int) {
                                    assert(s@[0] == 45 && u64_dec(n as nat)[0] >= 48);
                                }
                            }
                        }
                    }
                    None
                }
            },
            None => {
                proof {
                    assert forall|n: i64| s@ != i64_dec(n as int) by {
                        if n < 0 {
                            if s@ == i64_dec(n as int) {
                                assert(s@.subrange(1, s@.len() as int) =~= u64_dec(
                                    (-(n as int)) as nat,
                                ));
                            }
                        } else {
                            lemma_u64_dec_props(n as nat);
                            if s@ == i64_dec(n as int) {
                                assert(s@[0] == 45 && u64_dec(n as nat)[0] >= 48);
                            }
                        }
                    }
                }
                None
            },
        }
    } else {
        let m = dec_to_u64_at(s, 0, s.len());
        proof {
            assert(s@.subrange(0, s@.len() as int) =~= s@);
        }
        match m {
            Some(mag) => {
                if mag <= i64::MAX as u64 {
                    Some(mag as i64)
                } else {
                    proof {
                        assert forall|n: i64| s@ != i64_dec(n as int) by {
                            lemma_u64_dec_props(mag as nat);
                            if n >= 0 {
                                lemma_u64_dec_props(n as nat);
                                if s@ == i64_dec(n as int) {
                                    assert(dec_val(u64_dec(n as nat)) == dec_val(
                                        u64_dec(mag as nat),
                                    ));
                                }
                            } else {
                                if s@ == i64_dec(n as int) {
                                    assert(s@[0] == 45);
                                    assert(u64_dec(mag as nat)[0] >= 48);
                                }
                            }
                        }
                    }
                    None
                }
            },
            None => {
                proof {
                    assert forall|n: i64| s@ != i64_dec(n as int) by {
                        if n >= 0 {
                        } else {
                            if s@ == i64_dec(n as int) {
                                assert(s@[0] == 45);
                                if s.len() > 0 {
                                    assert(s@[0] != 45);
                                }
                            }
                        }
                    }
                }
                None
            },
        }
    }
}

} // verus!

verus! {

/// Decimal text determines the number: the formatter is injective.
pub proof fn lemma_i64_dec_injective(a: int, b: int)
    requires
        i64_dec(a) == i64_dec(b),
    ensures
        a == b,
{
    if a >= 0 {
        lemma_u64_dec_props(a as nat);
        if b >= 0 {
            lemma_u64_dec_props(b as nat);
            assert(dec_val(u64_dec(a as nat)) == dec_val(u64_dec(b as nat)));
        } else {
            lemma_u64_dec_props((-b) as nat);
            assert(i64_dec(b)[0] == 45);
            assert(i64_dec(a)[0] >= 48);
        }
    } else {
        lemma_u64_dec_props((-a) as nat);
        if b >= 0 {
            lemma_u64_dec_props(b as nat);
            assert(i64_dec(a)[0] == 45);
            assert(i64_dec(b)[0] >= 48);
        } else {
            lemma_u64_dec_props((-b) as nat);
            assert(i64_dec(a).subrange(1, i64_dec(a).len() as int) =~= u64_dec((-a) as nat));
            assert(i64_dec(b).subrange(1, i64_dec(b).len() as int) =~= u64_dec((-b) as nat));
            assert(dec_val(u64_dec((-a) as nat)) == dec_val(u64_dec((-b) as nat)));
        }
    }
}

} // verus!
