//! A JSON tree, a serializer and a strict recursive-descent parser, all
//! working over bytes.
//!
//! The client speaks JSON on every wire exchange: OAuth token grants,
//! certificate rings, error envelopes and the per-service request and
//! response records. The mathematical model is [`JVal`]; [`json_text`]
//! says what the serializer emits and [`json_parse`] says what the parser
//! accepts, so every caller's contract can name the exact document.
//!
//! The parser accepts the common JSON surface: the three literals, numbers
//! (kept as their literal text), strings with the short escapes and
//! non-surrogate `\uXXXX` escapes, arrays and objects, with insignificant
//! whitespace between tokens. Surrogate pairs are rejected.

use vstd::prelude::*;

verus! {

/// The mathematical model of a JSON document.
pub ghost enum JVal {
    Null,
    Bool(bool),
    /// A number, kept as its literal text (so no precision is lost).
    Num(Seq<u8>),
    /// A string, as its decoded bytes.
    Str(Seq<u8>),
    Arr(Seq<JVal>),
    Obj(Seq<(Seq<u8>, JVal)>),
}

/// A JSON document as held and produced by the executable code.
#[derive(Debug, PartialEq)]
pub enum JsonVal {
    Null,
    Bool(bool),
    /// A number, kept as its literal text (so no precision is lost).
    Num(Vec<u8>),
    /// A string, as its decoded bytes.
    Str(Vec<u8>),
    Arr(Vec<JsonVal>),
    Obj(Vec<(Vec<u8>, JsonVal)>),
}

/// The model of one held document.
pub open spec fn jval_of(v: JsonVal) -> JVal
    decreases v,
{
    match v {
        JsonVal::Null => JVal::Null,
        JsonVal::Bool(b) => JVal::Bool(b),
        JsonVal::Num(t) => JVal::Num(t@),
        JsonVal::Str(t) => JVal::Str(t@),
        JsonVal::Arr(xs) => JVal::Arr(jvals_of(xs@)),
        JsonVal::Obj(ps) => JVal::Obj(jmembers_of(ps@)),
    }
}

/// The models of a sequence of held documents.
pub open spec fn jvals_of(xs: Seq<JsonVal>) -> Seq<JVal>
    decreases xs,
{
    if xs.len() == 0 {
        Seq::empty()
    } else {
        seq![jval_of(xs[0])] + jvals_of(xs.subrange(1, xs.len() as int))
    }
}

/// The models of a sequence of held object members.
pub open spec fn jmembers_of(ps: Seq<(Vec<u8>, JsonVal)>) -> Seq<(Seq<u8>, JVal)>
    decreases ps,
{
    if ps.len() == 0 {
        Seq::empty()
    } else {
        seq![(ps[0].0@, jval_of(ps[0].1))] + jmembers_of(ps.subrange(1, ps.len() as int))
    }
}

impl View for JsonVal {
    type V = JVal;

    open spec fn view(&self) -> JVal {
        jval_of(*self)
    }
}

// ---------------------------------------------------------------------------
// Serialization
// ---------------------------------------------------------------------------
/// The lowercase hex digit for a four-bit value.
pub open spec fn hex_digit(v: u8) -> u8 {
    if v < 10 {
        (48 + v) as u8
    } else {
        (87 + v) as u8
    }
}

/// How one string byte is written: the quote and the backslash get a
/// backslash escape, control bytes a `\u00XX` escape, all others stand as
/// themselves.
pub open spec fn esc_byte(b: u8) -> Seq<u8> {
    if b == 34 {
        seq![92u8, 34u8]
    } else if b == 92 {
        seq![92u8, 92u8]
    } else if b < 32 {
        seq![92u8, 117u8, 48u8, 48u8, hex_digit(b >> 4), hex_digit(b & 15)]
    } else {
        seq![b]
    }
}

/// The escaped form of a whole string body.
pub open spec fn esc_bytes(s: Seq<u8>) -> Seq<u8>
    decreases s.len(),
{
    if s.len() == 0 {
        Seq::empty()
    } else {
        esc_byte(s[0]) + esc_bytes(s.subrange(1, s.len() as int))
    }
}

/// The serialized text of a document: no whitespace, object members in
/// their held order, numbers as their literal text.
pub open spec fn json_text(v: JVal) -> Seq<u8>
    decreases v,
{
    match v {
        JVal::Null => seq![110u8, 117u8, 108u8, 108u8],
        JVal::Bool(b) => if b {
            seq![116u8, 114u8, 117u8, 101u8]
        } else {
            seq![102u8, 97u8, 108u8, 115u8, 101u8]
        },
        JVal::Num(t) => t,
        JVal::Str(t) => seq![34u8] + esc_bytes(t) + seq![34u8],
        JVal::Arr(xs) => seq![91u8] + json_text_items(xs) + seq![93u8],
        JVal::Obj(ps) => seq![123u8] + json_text_members(ps) + seq![125u8],
    }
}

/// The comma-joined texts of an array's items.
pub open spec fn json_text_items(xs: Seq<JVal>) -> Seq<u8>
    decreases xs,
{
    if xs.len() == 0 {
        Seq::empty()
    } else if xs.len() == 1 {
        json_text(xs[0])
    } else {
        json_text(xs[0]) + seq![44u8] + json_text_items(xs.subrange(1, xs.len() as int))
    }
}

/// The comma-joined `"key":value` texts of an object's members.
pub open spec fn json_text_members(ps: Seq<(Seq<u8>, JVal)>) -> Seq<u8>
    decreases ps,
{
    if ps.len() == 0 {
        Seq::empty()
    } else {
        let head = seq![34u8] + esc_bytes(ps[0].0) + seq![34u8, 58u8] + json_text(ps[0].1);
        if ps.len() == 1 {
            head
        } else {
            head + seq![44u8] + json_text_members(ps.subrange(1, ps.len() as int))
        }
    }
}

// ---------------------------------------------------------------------------
// Parsing
// ---------------------------------------------------------------------------
/// The four insignificant whitespace bytes.
pub open spec fn is_ws(c: u8) -> bool {
    c == 32 || c == 9 || c == 10 || c == 13
}

/// An ASCII decimal digit.
pub open spec fn is_digit(c: u8) -> bool {
    48 <= c && c <= 57
}

/// The value of an ASCII hex digit, or 16 when `c` is not one.
pub open spec fn hex_val(c: u8) -> u8 {
    if 48 <= c && c <= 57 {
        (c - 48) as u8
    } else if 97 <= c && c <= 102 {
        (c - 97 + 10) as u8
    } else if 65 <= c && c <= 70 {
        (c - 65 + 10) as u8
    } else {
        16
    }
}

/// The first position at or after `i` holding a non-whitespace byte.
pub open spec fn skip_ws(s: Seq<u8>, i: int) -> int
    decreases s.len() - i,
{
    if 0 <= i && i < s.len() && is_ws(s[i]) {
        skip_ws(s, i + 1)
    } else {
        i
    }
}

/// The first position at or after `i` holding a non-digit byte.
pub open spec fn digits_end(s: Seq<u8>, i: int) -> int
    decreases s.len() - i,
{
    if 0 <= i && i < s.len() && is_digit(s[i]) {
        digits_end(s, i + 1)
    } else {
        i
    }
}

/// The UTF-8 bytes of a scalar below 0x10000 (one to three bytes).
pub open spec fn utf8_of_scalar(v: int) -> Seq<u8> {
    if v < 0x80 {
        seq![v as u8]
    } else if v < 0x800 {
        seq![(0xc0 + v / 64) as u8, (0x80 + v % 64) as u8]
    } else {
        seq![(0xe0 + v / 4096) as u8, (0x80 + (v / 64) % 64) as u8, (0x80 + v % 64) as u8]
    }
}

/// Parses a string body starting just inside the opening quote: the
/// decoded bytes and the position after the closing quote.
pub open spec fn parse_str_body(s: Seq<u8>, i: int) -> Option<(Seq<u8>, int)>
    decreases s.len() - i,
{
    if !(0 <= i && i < s.len()) {
        None
    } else if s[i] == 34 {
        Some((Seq::empty(), i + 1))
    } else if s[i] == 92 {
        if i + 1 < s.len() {
            let e = s[i + 1];
            if e == 117 {
                // \uXXXX
                if i + 5 < s.len() && hex_val(s[i + 2]) < 16 && hex_val(s[i + 3]) < 16 && hex_val(
                    s[i + 4],
                ) < 16 && hex_val(s[i + 5]) < 16 {
                    let v = (hex_val(s[i + 2]) as int) * 0x1000 + (hex_val(s[i + 3]) as int) * 0x100
                        + (hex_val(s[i + 4]) as int) * 0x10 + (hex_val(s[i + 5]) as int);
                    if 0xd800 <= v && v < 0xe000 {
                        None
                    } else {
                        match parse_str_body(s, i + 6) {
                            Some((t, j)) => Some((utf8_of_scalar(v) + t, j)),
                            None => None,
                        }
                    }
                } else {
                    None
                }
            } else {
                let b: u8 = if e == 34 {
                    34
                } else if e == 92 {
                    92
                } else if e == 47 {
                    47
                } else if e == 98 {
                    8
                } else if e == 102 {
                    12
                } else if e == 110 {
                    10
                } else if e == 114 {
                    13
                } else if e == 116 {
                    9
                } else {
                    0
                };
                if e == 34 || e == 92 || e == 47 || e == 98 || e == 102 || e == 110 || e == 114 || e
                    == 116 {
                    match parse_str_body(s, i + 2) {
                        Some((t, j)) => Some((seq![b] + t, j)),
                        None => None,
                    }
                } else {
                    None
                }
            }
        } else {
            None
        }
    } else {
        match parse_str_body(s, i + 1) {
            Some((t, j)) => Some((seq![s[i]] + t, j)),
            None => None,
        }
    }
}

/// Parses a number's literal text starting at `i` (which must hold `-` or
/// a digit): the text and the position after it.
pub open spec fn parse_num(s: Seq<u8>, i: int) -> Option<(Seq<u8>, int)> {
    if !(0 <= i && i < s.len()) {
        None
    } else {
        let i1 = if s[i] == 45 {
            i + 1
        } else {
            i
        };
        if i1 < s.len() && is_digit(s[i1]) {
            let i2 = digits_end(s, i1);
            let i3 = if i2 + 1 < s.len() && s[i2] == 46 && is_digit(s[i2 + 1]) {
                digits_end(s, i2 + 1)
            } else {
                i2
            };
            let i4 = if i3 < s.len() && (s[i3] == 101 || s[i3] == 69) {
                let ie = if i3 + 1 < s.len() && (s[i3 + 1] == 43 || s[i3 + 1] == 45) {
                    i3 + 2
                } else {
                    i3 + 1
                };
                if ie < s.len() && is_digit(s[ie]) {
                    digits_end(s, ie)
                } else {
                    i3
                }
            } else {
                i3
            };
            Some((s.subrange(i, i4), i4))
        } else {
            None
        }
    }
}

/// A step that surely advances: `j` when it lies in `(i, n]`, else a
/// clamped fallback. Parse positions always satisfy `i < j <= n`, so in
/// every reachable case this is just `j`; the clamp keeps the recursion
/// measure decreasing by construction.
pub open spec fn step_pos(i: int, j: int, n: int) -> int {
    if i < j && j <= n {
        j
    } else if i + 1 <= n {
        i + 1
    } else {
        n
    }
}

/// Parses one JSON value starting exactly at `i` (no leading whitespace):
/// the value and the position after it.
pub open spec fn parse_value(s: Seq<u8>, i: int) -> Option<(JVal, int)>
    decreases s.len() - i, 0int,
{
    if !(0 <= i && i < s.len()) {
        None
    } else {
        let c = s[i];
        if c == 110 {
            if i + 4 <= s.len() && s.subrange(i, i + 4) == seq![110u8, 117u8, 108u8, 108u8] {
                Some((JVal::Null, i + 4))
            } else {
                None
            }
        } else if c == 116 {
            if i + 4 <= s.len() && s.subrange(i, i + 4) == seq![116u8, 114u8, 117u8, 101u8] {
                Some((JVal::Bool(true), i + 4))
            } else {
                None
            }
        } else if c == 102 {
            if i + 5 <= s.len() && s.subrange(i, i + 5) == seq![102u8, 97u8, 108u8, 115u8, 101u8] {
                Some((JVal::Bool(false), i + 5))
            } else {
                None
            }
        } else if c == 45 || is_digit(c) {
            match parse_num(s, i) {
                Some((t, j)) => Some((JVal::Num(t), j)),
                None => None,
            }
        } else if c == 34 {
            match parse_str_body(s, i + 1) {
                Some((t, j)) => Some((JVal::Str(t), j)),
                None => None,
            }
        } else if c == 91 {
            let i1 = skip_ws(s, i + 1);
            if i1 < s.len() && s[i1] == 93 {
                Some((JVal::Arr(Seq::empty()), i1 + 1))
            } else {
                match parse_arr_tail(s, step_pos(i, i1, s.len() as int)) {
                    Some((xs, j)) => Some((JVal::Arr(xs), j)),
                    None => None,
                }
            }
        } else if c == 123 {
            let i1 = skip_ws(s, i + 1);
            if i1 < s.len() && s[i1] == 125 {
                Some((JVal::Obj(Seq::empty()), i1 + 1))
            } else {
                match parse_obj_tail(s, step_pos(i, i1, s.len() as int)) {
                    Some((ps, j)) => Some((JVal::Obj(ps), j)),
                    None => None,
                }
            }
        } else {
            None
        }
    }
}

/// Parses the items of a non-empty array from the first item's position:
/// the items and the position after the closing bracket.
pub open spec fn parse_arr_tail(s: Seq<u8>, i: int) -> Option<(Seq<JVal>, int)>
    decreases s.len() - i, 1int,
{
    if !(0 <= i && i < s.len()) {
        None
    } else {
        match parse_value(s, i) {
            None => None,
            Some((v, j0)) => {
                let j = skip_ws(s, j0);
                if j < s.len() && s[j] == 93 {
                    Some((seq![v], j + 1))
                } else if j < s.len() && s[j] == 44 {
                    let i2 = skip_ws(s, j + 1);
                    match parse_arr_tail(s, step_pos(i, i2, s.len() as int)) {
                        Some((xs, k)) => Some((seq![v] + xs, k)),
                        None => None,
                    }
                } else {
                    None
                }
            },
        }
    }
}

/// Parses the members of a non-empty object from the first key's
/// position: the members and the position after the closing brace.
pub open spec fn parse_obj_tail(s: Seq<u8>, i: int) -> Option<(Seq<(Seq<u8>, JVal)>, int)>
    decreases s.len() - i, 1int,
{
    if !(0 <= i && i < s.len() && s[i] == 34) {
        None
    } else {
        match parse_str_body(s, i + 1) {
            None => None,
            Some((k, j0)) => {
                let j1 = skip_ws(s, j0);
                if j1 < s.len() && s[j1] == 58 {
                    let iv = skip_ws(s, j1 + 1);
                    match parse_value(s, step_pos(i, iv, s.len() as int)) {
                        None => None,
                        Some((v, j2)) => {
                            let j = skip_ws(s, j2);
                            if j < s.len() && s[j] == 125 {
                                Some((seq![(k, v)], j + 1))
                            } else if j < s.len() && s[j] == 44 {
                                let i2 = skip_ws(s, j + 1);
                                match parse_obj_tail(s, step_pos(i, i2, s.len() as int)) {
                                    Some((ps, e)) => Some((seq![(k, v)] + ps, e)),
                                    None => None,
                                }
                            } else {
                                None
                            }
                        },
                    }
                } else {
                    None
                }
            },
        }
    }
}

/// Parses a whole document: one value, with whitespace allowed around it
/// and nothing else.
pub open spec fn json_parse(s: Seq<u8>) -> Option<JVal> {
    match parse_value(s, skip_ws(s, 0)) {
        Some((v, j)) => if skip_ws(s, j) == s.len() {
            Some(v)
        } else {
            None
        },
        None => None,
    }
}

// ---------------------------------------------------------------------------
// Position bounds of the parsing functions
// ---------------------------------------------------------------------------
/// `digits_end` stays within `[i, s.len()]`.
pub proof fn lemma_digits_end_bounds(s: Seq<u8>, i: int)
    requires
        0 <= i <= s.len(),
    ensures
        i <= digits_end(s, i) <= s.len(),
        i < s.len() && is_digit(s[i]) ==> i + 1 <= digits_end(s, i),
    decreases s.len() - i,
{
    if i < s.len() && is_digit(s[i]) {
        lemma_digits_end_bounds(s, i + 1);
    }
}

} // verus!

verus! {

// ---------------------------------------------------------------------------
// The executable parser
// ---------------------------------------------------------------------------
/// The first position at or after `i` holding a non-whitespace byte.
fn skip_ws_x(s: &[u8], i: usize) -> (r: usize)
    requires
        i <= s.len(),
    ensures
        r as int == skip_ws(s@, i as int),
        i <= r <= s.len(),
    decreases s.len() - i,
{
    if i < s.len() && (s[i] == 32 || s[i] == 9 || s[i] == 10 || s[i] == 13) {
        skip_ws_x(s, i + 1)
    } else {
        i
    }
}

/// The first position at or after `i` holding a non-digit byte.
fn digits_end_x(s: &[u8], i: usize) -> (r: usize)
    requires
        i <= s.len(),
    ensures
        r as int == digits_end(s@, i as int),
        i <= r <= s.len(),
    decreases s.len() - i,
{
    if i < s.len() && 48 <= s[i] && s[i] <= 57 {
        digits_end_x(s, i + 1)
    } else {
        i
    }
}

/// The value of an ASCII hex digit, 16 when `c` is not one.
fn hex_val_x(c: u8) -> (r: u8)
    ensures
        r == hex_val(c),
{
    if 48 <= c && c <= 57 {
        c - 48
    } else if 97 <= c && c <= 102 {
        c - 97 + 10
    } else if 65 <= c && c <= 70 {
        c - 65 + 10
    } else {
        16
    }
}

/// Copies `s[a..b]` into a fresh vector.
fn copy_range(s: &[u8], a: usize, b: usize) -> (r: Vec<u8>)
    requires
        a <= b <= s.len(),
    ensures
        r@ == s@.subrange(a as int, b as int),
{
    let mut r: Vec<u8> = Vec::new();
    let mut k: usize = a;
    while k < b
        invariant
            a <= k <= b <= s.len(),
            r@ == s@.subrange(a as int, k as int),
        decreases b - k,
    {
        r.push(s[k]);
        proof {
            assert(r@ =~= s@.subrange(a as int, k as int + 1));
        }
        k += 1;
    }
    r
}

/// Parses a string body starting just inside the opening quote.
fn parse_str_body_x(s: &[u8], i0: usize) -> (r: Option<(Vec<u8>, usize)>)
    requires
        i0 <= s.len(),
    ensures
        match r {
            Some((t, j)) => parse_str_body(s@, i0 as int) == Some((t@, j as int)) && i0 < j
                <= s.len(),
            None => parse_str_body(s@, i0 as int) is None,
        },
{
    let mut acc: Vec<u8> = Vec::new();
    let mut i: usize = i0;
    proof {
        assert forall|t: Seq<u8>, j: int|
            parse_str_body(s@, i as int) == Some::<(Seq<u8>, int)>((t, j)) implies parse_str_body(
            s@,
            i0 as int,
        ) == Some::<(Seq<u8>, int)>((acc@ + t, j)) by {
            assert(acc@ + t =~= t);
        }
    }
    loop
        invariant
            i0 <= i <= s.len(),
            forall|t: Seq<u8>, j: int|
                parse_str_body(s@, i as int) == Some::<(Seq<u8>, int)>((t, j))
                    ==> parse_str_body(s@, i0 as int) == Some::<(Seq<u8>, int)>((acc@ + t, j)),
            parse_str_body(s@, i as int) is None ==> parse_str_body(s@, i0 as int) is None,
        decreases s.len() - i,
    {
        if i >= s.len() {
            return None;
        }
        let c = s[i];
        if c == 34 {
            proof {
                assert(parse_str_body(s@, i as int) == Some::<(Seq<u8>, int)>((
                    Seq::empty(),
                    i as int + 1,
                )));
                assert(acc@ + Seq::<u8>::empty() =~= acc@);
            }
            return Some((acc, i + 1));
        } else if c == 92 {
            if i + 1 >= s.len() {
                return None;
            }
            let e = s[i + 1];
            if e == 117 {
                if s.len() - i <= 5 {
                    return None;
                }
                let h0 = hex_val_x(s[i + 2]);
                let h1 = hex_val_x(s[i + 3]);
                let h2 = hex_val_x(s[i + 4]);
                let h3 = hex_val_x(s[i + 5]);
                if !(h0 < 16 && h1 < 16 && h2 < 16 && h3 < 16) {
                    return None;
                }
                let v: u32 = (h0 as u32) * 0x1000 + (h1 as u32) * 0x100 + (h2 as u32) * 0x10 + (
                h3 as u32);
                if 0xd800 <= v && v < 0xe000 {
                    return None;
                }
                let ghost acc0 = acc@;
                if v < 0x80 {
                    acc.push(v as u8);
                } else if v < 0x800 {
                    acc.push(0xc0 + (v / 64) as u8);
                    acc.push(0x80 + (v % 64) as u8);
                } else {
                    acc.push(0xe0 + (v / 4096) as u8);
                    acc.push(0x80 + ((v / 64) % 64) as u8);
                    acc.push(0x80 + (v % 64) as u8);
                }
                let ghost iold = i as int;
                i += 6;
                proof {
                    assert(acc@ =~= acc0 + utf8_of_scalar(v as int));
                    lemma_prepend_step(s@, i0 as int, iold, i as int, acc0, utf8_of_scalar(v as int));
                }
            } else if e == 34 || e == 92 || e == 47 || e == 98 || e == 102 || e == 110 || e == 114
                || e == 116 {
                let b: u8 = if e == 34 {
                    34
                } else if e == 92 {
                    92
                } else if e == 47 {
                    47
                } else if e == 98 {
                    8
                } else if e == 102 {
                    12
                } else if e == 110 {
                    10
                } else if e == 114 {
                    13
                } else {
                    9
                };
                let ghost acc0 = acc@;
                acc.push(b);
                let ghost iold = i as int;
                i += 2;
                proof {
                    assert(acc@ =~= acc0 + seq![b]);
                    lemma_prepend_step(s@, i0 as int, iold, i as int, acc0, seq![b]);
                }
            } else {
                return None;
            }
        } else {
            let ghost acc0 = acc@;
            acc.push(c);
            let ghost iold = i as int;
            i += 1;
            proof {
                assert(acc@ =~= acc0 + seq![c]);
                lemma_prepend_step(s@, i0 as int, iold, i as int, acc0, seq![c]);
            }
        }
    }
}

/// One accumulation step of the string-body loop: if the suffix at `iold`
/// parses by prepending `piece` to what the suffix at `inew` parses, the
/// accumulator relation carries over.
proof fn lemma_prepend_step(s: Seq<u8>, i0: int, iold: int, inew: int, acc0: Seq<u8>, piece: Seq<u8>)
    requires
        forall|t: Seq<u8>, j: int|
            parse_str_body(s, iold) == Some::<(Seq<u8>, int)>((t, j)) ==> parse_str_body(s, i0)
                == Some::<(Seq<u8>, int)>((acc0 + t, j)),
        parse_str_body(s, iold) is None ==> parse_str_body(s, i0) is None,
        (match parse_str_body(s, inew) {
            Some((t, j)) => parse_str_body(s, iold) == Some::<(Seq<u8>, int)>((piece + t, j)),
            None => parse_str_body(s, iold) is None,
        }),
    ensures
        forall|t: Seq<u8>, j: int|
            parse_str_body(s, inew) == Some::<(Seq<u8>, int)>((t, j)) ==> parse_str_body(s, i0)
                == Some::<(Seq<u8>, int)>(((acc0 + piece) + t, j)),
        parse_str_body(s, inew) is None ==> parse_str_body(s, i0) is None,
{
    assert forall|t: Seq<u8>, j: int|
        parse_str_body(s, inew) == Some::<(Seq<u8>, int)>((t, j)) implies parse_str_body(s, i0)
        == Some::<(Seq<u8>, int)>(((acc0 + piece) + t, j)) by {
        assert(parse_str_body(s, iold) == Some::<(Seq<u8>, int)>((piece + t, j)));
        assert(acc0 + (piece + t) =~= (acc0 + piece) + t);
    }
}

/// Parses a number's literal text starting at `i`.
fn parse_num_x(s: &[u8], i: usize) -> (r: Option<(Vec<u8>, usize)>)
    requires
        i <= s.len(),
    ensures
        match r {
            Some((t, j)) => parse_num(s@, i as int) == Some((t@, j as int)) && i < j <= s.len(),
            None => parse_num(s@, i as int) is None,
        },
{
    if i >= s.len() {
        return None;
    }
    let i1: usize = if s[i] == 45 {
        i + 1
    } else {
        i
    };
    if !(i1 < s.len() && 48 <= s[i1] && s[i1] <= 57) {
        return None;
    }
    let i2 = digits_end_x(s, i1);
    proof {
        lemma_digits_end_bounds(s@, i1 as int);
    }
    let i3: usize = if i2 < s.len() && i2 + 1 < s.len() && s[i2] == 46 && 48 <= s[i2 + 1] && s[i2
        + 1] <= 57 {
        let e = digits_end_x(s, i2 + 1);
        proof {
            lemma_digits_end_bounds(s@, i2 as int + 1);
        }
        e
    } else {
        i2
    };
    let i4: usize = if i3 < s.len() && (s[i3] == 101 || s[i3] == 69) {
        let ie: usize = if i3 + 1 < s.len() && (s[i3 + 1] == 43 || s[i3 + 1] == 45) {
            i3 + 2
        } else {
            i3 + 1
        };
        if ie < s.len() && 48 <= s[ie] && s[ie] <= 57 {
            let e = digits_end_x(s, ie);
            proof {
                lemma_digits_end_bounds(s@, ie as int);
            }
            e
        } else {
            i3
        }
    } else {
        i3
    };
    let t = copy_range(s, i, i4);
    Some((t, i4))
}

} // verus!

verus! {

/// Parses one JSON value starting exactly at `i`.
pub fn parse_value_x(s: &[u8], i: usize) -> (r: Option<(JsonVal, usize)>)
    requires
        i <= s.len(),
    ensures
        match r {
            Some((v, j)) => parse_value(s@, i as int) == Some((v@, j as int)) && i < j <= s.len(),
            None => parse_value(s@, i as int) is None,
        },
    decreases s.len() - i, 0int,
{
    if i >= s.len() {
        return None;
    }
    let c = s[i];
    if c == 110 {
        if s.len() - i >= 4 && s[i + 1] == 117 && s[i + 2] == 108 && s[i + 3] == 108 {
            proof {
                assert(s@.subrange(i as int, i as int + 4) =~= seq![110u8, 117u8, 108u8, 108u8]);
            }
            Some((JsonVal::Null, i + 4))
        } else {
            proof {
                if i as int + 4 <= s@.len() {
                    let t = s@.subrange(i as int, i as int + 4);
                    assert(t[1] == s@[i as int + 1] && t[2] == s@[i as int + 2] && t[3] == s@[i as int
                        + 3]);
                }
            }
            None
        }
    } else if c == 116 {
        if s.len() - i >= 4 && s[i + 1] == 114 && s[i + 2] == 117 && s[i + 3] == 101 {
            proof {
                assert(s@.subrange(i as int, i as int + 4) =~= seq![116u8, 114u8, 117u8, 101u8]);
            }
            Some((JsonVal::Bool(true), i + 4))
        } else {
            proof {
                if i as int + 4 <= s@.len() {
                    let t = s@.subrange(i as int, i as int + 4);
                    assert(t[1] == s@[i as int + 1] && t[2] == s@[i as int + 2] && t[3] == s@[i as int
                        + 3]);
                }
            }
            None
        }
    } else if c == 102 {
        if s.len() - i >= 5 && s[i + 1] == 97 && s[i + 2] == 108 && s[i + 3] == 115 && s[i + 4]
            == 101 {
            proof {
                assert(s@.subrange(i as int, i as int + 5) =~= seq![102u8, 97u8, 108u8, 115u8, 101u8]);
            }
            Some((JsonVal::Bool(false), i + 5))
        } else {
            proof {
                if i as int + 5 <= s@.len() {
                    let t = s@.subrange(i as int, i as int + 5);
                    assert(t[1] == s@[i as int + 1] && t[2] == s@[i as int + 2] && t[3] == s@[i as int
                        + 3] && t[4] == s@[i as int + 4]);
                }
            }
            None
        }
    } else if c == 45 || (48 <= c && c <= 57) {
        match parse_num_x(s, i) {
            Some((t, j)) => Some((JsonVal::Num(t), j)),
            None => None,
        }
    } else if c == 34 {
        match parse_str_body_x(s, i + 1) {
            Some((t, j)) => Some((JsonVal::Str(t), j)),
            None => None,
        }
    } else if c == 91 {
        let i1 = skip_ws_x(s, i + 1);
        if i1 < s.len() && s[i1] == 93 {
            proof {
                assert(jvals_of(Seq::<JsonVal>::empty()) =~= Seq::<JVal>::empty());
            }
            Some((JsonVal::Arr(Vec::new()), i1 + 1))
        } else {
            proof {
                assert(step_pos(i as int, i1 as int, s@.len() as int) == i1 as int);
            }
            match parse_arr_tail_x(s, i1) {
                Some((vs, j)) => Some((JsonVal::Arr(vs), j)),
                None => None,
            }
        }
    } else if c == 123 {
        let i1 = skip_ws_x(s, i + 1);
        if i1 < s.len() && s[i1] == 125 {
            proof {
                assert(jmembers_of(Seq::<(Vec<u8>, JsonVal)>::empty()) =~= Seq::<(
                    Seq<u8>,
                    JVal,
                )>::empty());
            }
            Some((JsonVal::Obj(Vec::new()), i1 + 1))
        } else {
            proof {
                assert(step_pos(i as int, i1 as int, s@.len() as int) == i1 as int);
            }
            match parse_obj_tail_x(s, i1) {
                Some((ps, j)) => Some((JsonVal::Obj(ps), j)),
                None => None,
            }
        }
    } else {
        None
    }
}

/// Parses the items of a non-empty array from the first item's position.
fn parse_arr_tail_x(s: &[u8], i: usize) -> (r: Option<(Vec<JsonVal>, usize)>)
    requires
        i <= s.len(),
    ensures
        match r {
            Some((vs, j)) => parse_arr_tail(s@, i as int) == Some((jvals_of(vs@), j as int)) && i
                < j <= s.len(),
            None => parse_arr_tail(s@, i as int) is None,
        },
    decreases s.len() - i, 1int,
{
    if i >= s.len() {
        return None;
    }
    match parse_value_x(s, i) {
        None => None,
        Some((v, j0)) => {
            let j = skip_ws_x(s, j0);
            if j < s.len() && s[j] == 93 {
                let mut vs: Vec<JsonVal> = Vec::new();
                vs.push(v);
                proof {
                    assert(vs@ =~= seq![v]);
                    assert(vs@.subrange(1, 1) =~= Seq::<JsonVal>::empty());
                    assert(jvals_of(Seq::<JsonVal>::empty()) =~= Seq::<JVal>::empty());
                    assert(jvals_of(vs@) =~= seq![v@]);
                }
                Some((vs, j + 1))
            } else if j < s.len() && s[j] == 44 {
                let i2 = skip_ws_x(s, j + 1);
                proof {
                    assert(step_pos(i as int, i2 as int, s@.len() as int) == i2 as int);
                }
                match parse_arr_tail_x(s, i2) {
                    Some((mut rest, k)) => {
                        let ghost rest0 = rest@;
                        let mut vs: Vec<JsonVal> = Vec::new();
                        vs.push(v);
                        vs.append(&mut rest);
                        proof {
                            assert(vs@ =~= seq![v] + rest0);
                            assert(vs@[0] == v);
                            assert(vs@.subrange(1, vs@.len() as int) =~= rest0);
                            assert(jvals_of(vs@) =~= seq![v@] + jvals_of(rest0));
                        }
                        Some((vs, k))
                    },
                    None => None,
                }
            } else {
                None
            }
        },
    }
}

/// Parses the members of a non-empty object from the first key's position.
fn parse_obj_tail_x(s: &[u8], i: usize) -> (r: Option<(Vec<(Vec<u8>, JsonVal)>, usize)>)
    requires
        i <= s.len(),
    ensures
        match r {
            Some((ps, j)) => parse_obj_tail(s@, i as int) == Some((jmembers_of(ps@), j as int)) && i
                < j <= s.len(),
            None => parse_obj_tail(s@, i as int) is None,
        },
    decreases s.len() - i, 1int,
{
    if i >= s.len() || s[i] != 34 {
        return None;
    }
    match parse_str_body_x(s, i + 1) {
        None => None,
        Some((k, j0)) => {
            let j1 = skip_ws_x(s, j0);
            if j1 < s.len() && s[j1] == 58 {
                let iv = skip_ws_x(s, j1 + 1);
                proof {
                    assert(step_pos(i as int, iv as int, s@.len() as int) == iv as int);
                }
                match parse_value_x(s, iv) {
                    None => None,
                    Some((v, j2)) => {
                        let j = skip_ws_x(s, j2);
                        if j < s.len() && s[j] == 125 {
                            let mut ps: Vec<(Vec<u8>, JsonVal)> = Vec::new();
                            ps.push((k, v));
                            proof {
                                assert(ps@.subrange(1, 1) =~= Seq::<(Vec<u8>, JsonVal)>::empty());
                                assert(jmembers_of(Seq::<(Vec<u8>, JsonVal)>::empty()) =~= Seq::<(
                                    Seq<u8>,
                                    JVal,
                                )>::empty());
                                assert(ps@[0].0 == k && ps@[0].1 == v);
                                assert(jmembers_of(ps@) =~= seq![(ps@[0].0@, ps@[0].1@)]);
                            }
                            Some((ps, j + 1))
                        } else if j < s.len() && s[j] == 44 {
                            let i2 = skip_ws_x(s, j + 1);
                            proof {
                                assert(step_pos(i as int, i2 as int, s@.len() as int) == i2 as int);
                            }
                            match parse_obj_tail_x(s, i2) {
                                Some((mut rest, e)) => {
                                    let ghost rest0 = rest@;
                                    let mut ps: Vec<(Vec<u8>, JsonVal)> = Vec::new();
                                    ps.push((k, v));
                                    ps.append(&mut rest);
                                    proof {
                                        assert(ps@[0].0 == k && ps@[0].1 == v);
                                        assert(ps@.subrange(1, ps@.len() as int) =~= rest0);
                                        assert(jmembers_of(ps@) =~= seq![(k@, v@)] + jmembers_of(
                                            rest0,
                                        ));
                                    }
                                    Some((ps, e))
                                },
                                None => None,
                            }
                        } else {
                            None
                        }
                    },
                }
            } else {
                None
            }
        },
    }
}

/// Parses a whole document: one value with only whitespace around it.
pub fn json_parse_x(s: &[u8]) -> (r: Option<JsonVal>)
    ensures
        match r {
            Some(v) => json_parse(s@) == Some(v@),
            None => json_parse(s@) is None,
        },
{
    let i0 = skip_ws_x(s, 0);
    match parse_value_x(s, i0) {
        Some((v, j)) => {
            let e = skip_ws_x(s, j);
            if e == s.len() {
                Some(v)
            } else {
                None
            }
        },
        None => None,
    }
}

} // verus!

verus! {

// ---------------------------------------------------------------------------
// The executable serializer
// ---------------------------------------------------------------------------
/// Escaping distributes over appending one byte.
proof fn lemma_esc_bytes_snoc(p: Seq<u8>, b: u8)
    ensures
        esc_bytes(p.push(b)) == esc_bytes(p) + esc_byte(b),
    decreases p.len(),
{
    assert(esc_bytes(Seq::<u8>::empty()) =~= Seq::<u8>::empty());
    if p.len() == 0 {
        assert(p.push(b)[0] == b);
        assert(p.push(b).subrange(1, 1) =~= Seq::<u8>::empty());
        assert(esc_bytes(p.push(b)) =~= esc_byte(b));
        assert(esc_bytes(p) + esc_byte(b) =~= esc_byte(b));
    } else {
        assert(p.push(b)[0] == p[0]);
        assert(p.push(b).subrange(1, p.len() as int + 1) =~= p.subrange(1, p.len() as int).push(b));
        lemma_esc_bytes_snoc(p.subrange(1, p.len() as int), b);
        assert(esc_bytes(p.push(b)) =~= esc_bytes(p) + esc_byte(b));
    }
}

/// The models of a sequence grow one by one.
proof fn lemma_jvals_of_snoc(p: Seq<JsonVal>, x: JsonVal)
    ensures
        jvals_of(p.push(x)) == jvals_of(p).push(jval_of(x)),
        jvals_of(p).len() == p.len(),
    decreases p.len(),
{
    if p.len() == 0 {
        assert(p.push(x)[0] == x);
        assert(p.push(x).subrange(1, 1) =~= Seq::<JsonVal>::empty());
        assert(jvals_of(Seq::<JsonVal>::empty()) =~= Seq::<JVal>::empty());
        assert(jvals_of(p.push(x)) =~= jvals_of(p).push(jval_of(x)));
    } else {
        assert(p.push(x).subrange(1, p.len() as int + 1) =~= p.subrange(1, p.len() as int).push(x));
        lemma_jvals_of_snoc(p.subrange(1, p.len() as int), x);
        assert(jvals_of(p.push(x)) =~= jvals_of(p).push(jval_of(x)));
    }
}

/// The models of a member sequence grow one by one.
proof fn lemma_jmembers_of_snoc(p: Seq<(Vec<u8>, JsonVal)>, m: (Vec<u8>, JsonVal))
    ensures
        jmembers_of(p.push(m)) == jmembers_of(p).push((m.0@, jval_of(m.1))),
        jmembers_of(p).len() == p.len(),
    decreases p.len(),
{
    if p.len() == 0 {
        assert(p.push(m)[0] == m);
        assert(p.push(m).subrange(1, 1) =~= Seq::<(Vec<u8>, JsonVal)>::empty());
        assert(jmembers_of(Seq::<(Vec<u8>, JsonVal)>::empty()) =~= Seq::<(Seq<u8>, JVal)>::empty());
        assert(jmembers_of(p.push(m)) =~= jmembers_of(p).push((m.0@, jval_of(m.1))));
    } else {
        assert(p.push(m).subrange(1, p.len() as int + 1) =~= p.subrange(1, p.len() as int).push(m));
        lemma_jmembers_of_snoc(p.subrange(1, p.len() as int), m);
        assert(jmembers_of(p.push(m)) =~= jmembers_of(p).push((m.0@, jval_of(m.1))));
    }
}

/// The item list's text grows by a comma and the new item's text.
proof fn lemma_items_snoc(p: Seq<JVal>, x: JVal)
    ensures
        p.len() == 0 ==> json_text_items(p.push(x)) == json_text(x),
        p.len() > 0 ==> json_text_items(p.push(x)) == json_text_items(p) + seq![44u8] + json_text(
            x,
        ),
    decreases p.len(),
{
    if p.len() == 0 {
        assert(p.push(x)[0] == x);
    } else {
        assert(p.push(x).subrange(1, p.len() as int + 1) =~= p.subrange(1, p.len() as int).push(x));
        lemma_items_snoc(p.subrange(1, p.len() as int), x);
        if p.len() == 1 {
            assert(json_text_items(p) =~= json_text(p[0]));
            assert(json_text_items(p.push(x)) =~= json_text_items(p) + seq![44u8] + json_text(x));
        } else {
            assert(json_text_items(p.push(x)) =~= json_text_items(p) + seq![44u8] + json_text(x));
        }
    }
}

/// One member's text.
pub open spec fn member_text(m: (Seq<u8>, JVal)) -> Seq<u8> {
    seq![34u8] + esc_bytes(m.0) + seq![34u8, 58u8] + json_text(m.1)
}

/// The member list's text grows by a comma and the new member's text.
proof fn lemma_members_snoc(p: Seq<(Seq<u8>, JVal)>, m: (Seq<u8>, JVal))
    ensures
        p.len() == 0 ==> json_text_members(p.push(m)) == member_text(m),
        p.len() > 0 ==> json_text_members(p.push(m)) == json_text_members(p) + seq![44u8]
            + member_text(m),
    decreases p.len(),
{
    if p.len() == 0 {
        assert(p.push(m)[0] == m);
        assert(json_text_members(p.push(m)) =~= member_text(m));
    } else {
        assert(p.push(m).subrange(1, p.len() as int + 1) =~= p.subrange(1, p.len() as int).push(m));
        lemma_members_snoc(p.subrange(1, p.len() as int), m);
        if p.len() == 1 {
            assert(json_text_members(p) =~= member_text(p[0]));
            assert(json_text_members(p.push(m)) =~= json_text_members(p) + seq![44u8]
                + member_text(m));
        } else {
            assert(json_text_members(p.push(m)) =~= json_text_members(p) + seq![44u8]
                + member_text(m));
        }
    }
}

/// The lowercase hex digit for a four-bit value.
fn hex_digit_x(v: u8) -> (r: u8)
    requires
        v < 16,
    ensures
        r == hex_digit(v),
{
    if v < 10 {
        48 + v
    } else {
        87 + v
    }
}

/// Appends every byte of `s` to `out`.
pub fn push_all(out: &mut Vec<u8>, s: &[u8])
    ensures
        final(out)@ == old(out)@ + s@,
{
    let mut k: usize = 0;
    while k < s.len()
        invariant
            k <= s.len(),
            out@ == old(out)@ + s@.take(k as int),
        decreases s.len() - k,
    {
        out.push(s[k]);
        proof {
            assert(old(out)@ + s@.take(k as int + 1) =~= (old(out)@ + s@.take(k as int)).push(
                s@[k as int],
            ));
        }
        k += 1;
    }
    proof {
        assert(s@.take(s@.len() as int) =~= s@);
    }
}

/// Appends the quoted, escaped form of a string body to `out`.
fn write_json_string(t: &[u8], out: &mut Vec<u8>)
    ensures
        final(out)@ == old(out)@ + seq![34u8] + esc_bytes(t@) + seq![34u8],
{
    out.push(34);
    let mut k: usize = 0;
    proof {
        assert(t@.take(0) =~= Seq::<u8>::empty());
        assert(esc_bytes(t@.take(0)) =~= Seq::<u8>::empty());
        assert(out@ =~= old(out)@ + seq![34u8] + esc_bytes(t@.take(0)));
    }
    while k < t.len()
        invariant
            k <= t.len(),
            out@ == old(out)@ + seq![34u8] + esc_bytes(t@.take(k as int)),
        decreases t.len() - k,
    {
        let b = t[k];
        let ghost o0 = out@;
        if b == 34 {
            out.push(92);
            out.push(34);
        } else if b == 92 {
            out.push(92);
            out.push(92);
        } else if b < 32 {
            out.push(92);
            out.push(117);
            out.push(48);
            out.push(48);
            proof {
                assert(b >> 4 < 16 && b & 15 < 16) by (bit_vector);
            }
            out.push(hex_digit_x(b >> 4));
            out.push(hex_digit_x(b & 15));
        } else {
            out.push(b);
        }
        proof {
            assert(out@ =~= o0 + esc_byte(b));
            lemma_esc_bytes_snoc(t@.take(k as int), b);
            assert(t@.take(k as int + 1) =~= t@.take(k as int).push(b));
            assert(out@ =~= old(out)@ + seq![34u8] + esc_bytes(t@.take(k as int + 1)));
        }
        k += 1;
    }
    out.push(34);
    proof {
        assert(t@.take(t@.len() as int) =~= t@);
        assert(out@ =~= old(out)@ + seq![34u8] + esc_bytes(t@) + seq![34u8]);
    }
}

/// Appends the serialized text of `v` to `out`.
#[verifier::loop_isolation(false)]
#[verifier::rlimit(60)]
pub fn write_json(v: &JsonVal, out: &mut Vec<u8>)
    ensures
        final(out)@ == old(out)@ + json_text(v@),
    decreases v,
{
    match v {
        JsonVal::Null => {
            out.push(110);
            out.push(117);
            out.push(108);
            out.push(108);
            proof {
                assert(out@ =~= old(out)@ + json_text(v@));
            }
        },
        JsonVal::Bool(b) => {
            if *b {
                out.push(116);
                out.push(114);
                out.push(117);
                out.push(101);
            } else {
                out.push(102);
                out.push(97);
                out.push(108);
                out.push(115);
                out.push(101);
            }
            proof {
                assert(out@ =~= old(out)@ + json_text(v@));
            }
        },
        JsonVal::Num(t) => {
            push_all(out, t.as_slice());
        },
        JsonVal::Str(t) => {
            write_json_string(t.as_slice(), out);
            proof {
                assert(out@ =~= old(out)@ + json_text(v@));
            }
        },
        JsonVal::Arr(xs) => {
            out.push(91);
            let ghost o0 = out@;
            proof {
                assert(jvals_of(xs@.take(0)) =~= Seq::<JVal>::empty());
                assert(json_text_items(Seq::<JVal>::empty()) =~= Seq::<u8>::empty());
                assert(out@ =~= o0 + json_text_items(jvals_of(xs@.take(0))));
            }
            let mut k: usize = 0;
            while k < xs.len()
                invariant
                    k <= xs.len(),
                    o0 == old(out)@ + seq![91u8],
                    out@ == o0 + json_text_items(jvals_of(xs@.take(k as int))),
                decreases xs.len() - k,
            {
                if k > 0 {
                    out.push(44);
                }
                let ghost o1 = out@;
                proof {
                    assert(*xs == v->Arr_0);
                    assert(decreases_to!(*v => v->Arr_0));
                    assert(decreases_to!(*xs => xs@));
                    assert(decreases_to!(xs@ => xs@[k as int]));
                }
                write_json(&xs[k], out);
                proof {
                    lemma_jvals_of_snoc(xs@.take(k as int), xs@[k as int]);
                    lemma_items_snoc(jvals_of(xs@.take(k as int)), jval_of(xs@[k as int]));
                    assert(xs@.take(k as int + 1) =~= xs@.take(k as int).push(xs@[k as int]));
                    assert(out@ =~= o0 + json_text_items(jvals_of(xs@.take(k as int + 1))));
                }
                k += 1;
            }
            out.push(93);
            proof {
                assert(xs@.take(xs@.len() as int) =~= xs@);
                assert(out@ =~= old(out)@ + json_text(v@));
            }
        },
        JsonVal::Obj(ps) => {
            out.push(123);
            let ghost o0 = out@;
            proof {
                assert(jmembers_of(ps@.take(0)) =~= Seq::<(Seq<u8>, JVal)>::empty());
                assert(json_text_members(Seq::<(Seq<u8>, JVal)>::empty()) =~= Seq::<u8>::empty());
                assert(out@ =~= o0 + json_text_members(jmembers_of(ps@.take(0))));
            }
            let mut k: usize = 0;
            while k < ps.len()
                invariant
                    k <= ps.len(),
                    o0 == old(out)@ + seq![123u8],
                    out@ == o0 + json_text_members(jmembers_of(ps@.take(k as int))),
                decreases ps.len() - k,
            {
                if k > 0 {
                    out.push(44);
                }
                let ghost o1 = out@;
                write_json_string(ps[k].0.as_slice(), out);
                out.push(58);
                proof {
                    assert(*ps == v->Obj_0);
                    assert(decreases_to!(*v => v->Obj_0));
                    assert(decreases_to!(*ps => ps@));
                    assert(decreases_to!(ps@ => ps@[k as int]));
                    assert(decreases_to!(ps@[k as int] => ps@[k as int].1));
                }
                write_json(&ps[k].1, out);
                proof {
                    lemma_jmembers_of_snoc(ps@.take(k as int), ps@[k as int]);
                    lemma_members_snoc(
                        jmembers_of(ps@.take(k as int)),
                        (ps@[k as int].0@, jval_of(ps@[k as int].1)),
                    );
                    assert(ps@.take(k as int + 1) =~= ps@.take(k as int).push(ps@[k as int]));
                    assert(out@ =~= o1 + member_text((ps@[k as int].0@, jval_of(ps@[k as int].1))));
                    assert(out@ =~= o0 + json_text_members(jmembers_of(ps@.take(k as int + 1))));
                }
                k += 1;
            }
            out.push(125);
            proof {
                assert(ps@.take(ps@.len() as int) =~= ps@);
                assert(out@ =~= old(out)@ + json_text(v@));
            }
        },
    }
}

/// The serialized text of `v` as a fresh vector.
pub fn to_json_bytes(v: &JsonVal) -> (r: Vec<u8>)
    ensures
        r@ == json_text(v@),
{
    let mut out: Vec<u8> = Vec::new();
    write_json(v, &mut out);
    proof {
        assert(Seq::<u8>::empty() + json_text(v@) =~= json_text(v@));
    }
    out
}

} // verus!

verus! {

// ---------------------------------------------------------------------------
// Reading parsed documents
// ---------------------------------------------------------------------------
/// The value under the first member named `k`, if any.
pub open spec fn obj_lookup(ps: Seq<(Seq<u8>, JVal)>, k: Seq<u8>) -> Option<JVal>
    decreases ps.len(),
{
    if ps.len() == 0 {
        None
    } else if ps[0].0 == k {
        Some(ps[0].1)
    } else {
        obj_lookup(ps.subrange(1, ps.len() as int), k)
    }
}

/// The value under member `k` of an object document; `None` on any other
/// document kind.
pub open spec fn obj_get(v: JVal, k: Seq<u8>) -> Option<JVal> {
    match v {
        JVal::Obj(ps) => obj_lookup(ps, k),
        _ => None,
    }
}

/// Byte-for-byte equality of two slices.
pub fn bytes_eq(a: &[u8], b: &[u8]) -> (r: bool)
    ensures
        r == (a@ == b@),
{
    if a.len() != b.len() {
        proof {
            assert(a@ != b@);
        }
        return false;
    }
    let mut k: usize = 0;
    while k < a.len()
        invariant
            k <= a.len() == b.len(),
            forall|i: int| 0 <= i < k ==> a@[i] == b@[i],
        decreases a.len() - k,
    {
        if a[k] != b[k] {
            return false;
        }
        k += 1;
    }
    proof {
        assert(a@ =~= b@);
    }
    true
}

/// Copies a byte vector.
pub fn bytes_clone(t: &Vec<u8>) -> (r: Vec<u8>)
    ensures
        r@ == t@,
{
    let r = copy_range(t.as_slice(), 0, t.len());
    proof {
        assert(t@.subrange(0, t@.len() as int) =~= t@);
    }
    r
}

/// Looks up the first member named `k` of an object document.
pub fn get_field<'a>(v: &'a JsonVal, k: &[u8]) -> (r: Option<&'a JsonVal>)
    ensures
        match r {
            Some(f) => obj_get(v@, k@) == Some(f@),
            None => obj_get(v@, k@) is None,
        },
{
    match v {
        JsonVal::Obj(ps) => {
            let ghost all = jmembers_of(ps@);
            let mut i: usize = 0;
            proof {
                assert(ps@.subrange(0, ps@.len() as int) =~= ps@);
            }
            while i < ps.len()
                invariant
                    i <= ps.len(),
                    all == jmembers_of(ps@),
                    v@ == JVal::Obj(all),
                    obj_lookup(all, k@) == obj_lookup(
                        jmembers_of(ps@.subrange(i as int, ps@.len() as int)),
                        k@,
                    ),
                decreases ps.len() - i,
            {
                let ghost sfx = ps@.subrange(i as int, ps@.len() as int);
                proof {
                    assert(sfx[0] == ps@[i as int]);
                    assert(sfx.subrange(1, sfx.len() as int) =~= ps@.subrange(
                        i as int + 1,
                        ps@.len() as int,
                    ));
                    assert(jmembers_of(sfx) == seq![(sfx[0].0@, jval_of(sfx[0].1))] + jmembers_of(
                        sfx.subrange(1, sfx.len() as int),
                    ));
                    assert(jmembers_of(sfx)[0] == (ps@[i as int].0@, jval_of(ps@[i as int].1)));
                    assert(jmembers_of(sfx).subrange(1, jmembers_of(sfx).len() as int)
                        =~= jmembers_of(ps@.subrange(i as int + 1, ps@.len() as int)));
                }
                if bytes_eq(ps[i].0.as_slice(), k) {
                    return Some(&ps[i].1);
                }
                i += 1;
            }
            proof {
                assert(ps@.subrange(ps@.len() as int, ps@.len() as int) =~= Seq::<(
                    Vec<u8>,
                    JsonVal,
                )>::empty());
                assert(jmembers_of(Seq::<(Vec<u8>, JsonVal)>::empty()) =~= Seq::<(
                    Seq<u8>,
                    JVal,
                )>::empty());
            }
            None
        },
        _ => None,
    }
}

/// The string bytes of a string document.
pub fn as_str<'a>(v: &'a JsonVal) -> (r: Option<&'a Vec<u8>>)
    ensures
        match r {
            Some(t) => v@ == JVal::Str(t@),
            None => !(v@ is Str),
        },
{
    match v {
        JsonVal::Str(t) => Some(t),
        _ => None,
    }
}

/// The value of an integer document in canonical decimal form.
pub fn as_i64(v: &JsonVal) -> (r: Option<i64>)
    ensures
        match r {
            Some(n) => v@ == JVal::Num(crate::num::i64_dec(n as int)),
            None => forall|n: i64| v@ != JVal::Num(crate::num::i64_dec(n as int)),
        },
{
    match v {
        JsonVal::Num(t) => crate::num::dec_to_i64(t.as_slice()),
        _ => None,
    }
}

/// The value of a boolean document.
pub fn as_bool(v: &JsonVal) -> (r: Option<bool>)
    ensures
        match r {
            Some(b) => v@ == JVal::Bool(b),
            None => !(v@ is Bool),
        },
{
    match v {
        JsonVal::Bool(b) => Some(*b),
        _ => None,
    }
}

/// Relies on `String::from_utf8`: it returns `Ok` exactly on valid UTF-8
/// input and decodes it, per its standard-library documentation; the
/// decoding is stated with vstd's UTF-8 model.
#[verifier::external_body]
pub fn bytes_to_string(v: Vec<u8>) -> (r: Result<String, Vec<u8>>)
    ensures
        match r {
            Ok(s) => vstd::utf8::valid_utf8(v@) && s@ == vstd::utf8::decode_utf8(v@),
            Err(w) => w == v && !vstd::utf8::valid_utf8(v@),
        },
{
    match String::from_utf8(v) {
        Ok(s) => Ok(s),
        Err(e) => Err(e.into_bytes()),
    }
}

} // verus!

verus! {

/// The first position at or after `i` holding byte `b`, or the length.
pub open spec fn find_byte(s: Seq<u8>, b: u8, i: int) -> int
    decreases s.len() - i,
{
    if 0 <= i && i < s.len() {
        if s[i] == b {
            i
        } else {
            find_byte(s, b, i + 1)
        }
    } else {
        s.len() as int
    }
}

/// The first position at or after `i` holding byte `b`, or the length.
pub fn find_byte_x(s: &[u8], b: u8, i: usize) -> (r: usize)
    requires
        i <= s.len(),
    ensures
        r as int == find_byte(s@, b, i as int),
        i <= r <= s.len(),
        r < s.len() ==> s@[r as int] == b,
    decreases s.len() - i,
{
    if i < s.len() {
        if s[i] == b {
            i
        } else {
            find_byte_x(s, b, i + 1)
        }
    } else {
        s.len()
    }
}

} // verus!

verus! {

/// Text equality of two string slices, decided byte by byte.
pub fn str_eq(a: &str, b: &str) -> (r: bool)
    ensures
        r == (a@ == b@),
{
    let r = bytes_eq(a.as_bytes(), b.as_bytes());
    proof {
        if vstd::utf8::encode_utf8(a@) == vstd::utf8::encode_utf8(b@) {
            vstd::utf8::encode_utf8_decode_utf8(a@);
            vstd::utf8::encode_utf8_decode_utf8(b@);
        }
    }
    r
}

} // verus!

verus! {

/// Member views line up index by index.
pub proof fn lemma_jmembers_index(ps: Seq<(Vec<u8>, JsonVal)>, j: int)
    requires
        0 <= j < ps.len(),
    ensures
        jmembers_of(ps).len() == ps.len(),
        jmembers_of(ps)[j] == (ps[j].0@, jval_of(ps[j].1)),
    decreases ps.len(),
{
    assert(jmembers_of(ps).subrange(1, jmembers_of(ps).len() as int) =~= jmembers_of(
        ps.subrange(1, ps.len() as int),
    ));
    lemma_jmembers_len(ps);
    if j > 0 {
        lemma_jmembers_index(ps.subrange(1, ps.len() as int), j - 1);
        assert(ps.subrange(1, ps.len() as int)[j - 1] == ps[j]);
    }
}

/// A member list and its views have the same length.
pub proof fn lemma_jmembers_len(ps: Seq<(Vec<u8>, JsonVal)>)
    ensures
        jmembers_of(ps).len() == ps.len(),
    decreases ps.len(),
{
    if ps.len() > 0 {
        lemma_jmembers_len(ps.subrange(1, ps.len() as int));
    }
}

} // verus!

verus! {

/// Reading back an escaped string body: from just inside the opening
/// quote, the parser decodes the escape of `t` followed by the closing
/// quote to exactly `t`, whatever follows.
pub proof fn lemma_esc_roundtrip(s: Seq<u8>, i: int, t: Seq<u8>)
    requires
        0 <= i,
        i + esc_bytes(t).len() + 1 <= s.len(),
        s.subrange(i, i + esc_bytes(t).len() + 1) == esc_bytes(t) + seq![34u8],
    ensures
        parse_str_body(s, i) == Some((t, i + esc_bytes(t).len() + 1)),
    decreases t.len(),
{
    if t.len() == 0 {
        assert(esc_bytes(t) =~= Seq::<u8>::empty());
        assert(s[i] == (esc_bytes(t) + seq![34u8])[0]);
        assert(s[i] == 34);
    } else {
        let b = t[0];
        let tail = t.subrange(1, t.len() as int);
        assert(esc_bytes(t) == esc_byte(b) + esc_bytes(tail));
        let eb = esc_byte(b);
        let el = eb.len();
        let all = s.subrange(i, i + esc_bytes(t).len() + 1);
        assert forall|k: int| 0 <= k < eb.len() implies s[i + k] == eb[k] by {
            assert(all[k] == s[i + k]);
            assert((esc_bytes(t) + seq![34u8])[k] == eb[k]);
        }
        assert(s.subrange(i + el, i + el + esc_bytes(tail).len() + 1) =~= esc_bytes(tail) + seq![
            34u8,
        ]) by {
            assert forall|k: int| 0 <= k < esc_bytes(tail).len() + 1 implies s.subrange(
                i + el,
                i + el + esc_bytes(tail).len() + 1,
            )[k] == (esc_bytes(tail) + seq![34u8])[k] by {
                assert(s.subrange(i + el, i + el + esc_bytes(tail).len() + 1)[k] == s[i + el + k]);
                assert(s[i + el + k] == all[el + k]);
                assert((esc_bytes(t) + seq![34u8])[el + k] == (esc_bytes(tail) + seq![34u8])[k]);
            }
        }
        lemma_esc_roundtrip(s, i + el, tail);
        assert(s[i + 0] == eb[0]);
        if eb.len() >= 2 {
            assert(s[i + 1] == eb[1]);
        }
        if eb.len() >= 6 {
            assert(s[i + 2] == eb[2] && s[i + 3] == eb[3] && s[i + 4] == eb[4]);
            assert(s[i + 5] == eb[5]);
        }
        if b == 34 {
            assert(eb == seq![92u8, 34u8]);
            assert(s[i] == 92 && s[i + 1] == 34);
            assert(seq![b] + tail =~= t);
        } else if b == 92 {
            assert(eb == seq![92u8, 92u8]);
            assert(s[i] == 92 && s[i + 1] == 92);
            assert(seq![b] + tail =~= t);
        } else if b < 32 {
            assert(eb == seq![92u8, 117u8, 48u8, 48u8, hex_digit(b >> 4), hex_digit(b & 15)]);
            assert(s[i] == 92 && s[i + 1] == 117 && s[i + 2] == 48 && s[i + 3] == 48 && s[i + 4]
                == hex_digit(b >> 4) && s[i + 5] == hex_digit(b & 15));
            assert(hex_val(48) == 0);
            assert(b >> 4 < 16 && b & 15 < 16 && ((b >> 4) as int) * 16 + ((b & 15) as int)
                == b as int) by (bit_vector);
            assert(hex_val(hex_digit(b >> 4)) == b >> 4);
            assert(hex_val(hex_digit(b & 15)) == b & 15);
            let v = (hex_val(s[i + 2]) as int) * 0x1000 + (hex_val(s[i + 3]) as int) * 0x100 + (
            hex_val(s[i + 4]) as int) * 0x10 + (hex_val(s[i + 5]) as int);
            assert(v == b as int);
            assert(utf8_of_scalar(v) =~= seq![b]);
            assert(seq![b] + tail =~= t);
        } else {
            assert(eb == seq![b]);
            assert(s[i] == b);
            assert(b != 34 && b != 92);
            assert(seq![b] + tail =~= t);
        }
    }
}

} // verus!

verus! {

/// A run of digits ends exactly at its first non-digit.
proof fn lemma_digits_end_exact(s: Seq<u8>, i: int, j: int)
    requires
        0 <= i <= j <= s.len(),
        forall|k: int| i <= k < j ==> is_digit(#[trigger] s[k]),
        j == s.len() || !is_digit(s[j]),
    ensures
        digits_end(s, i) == j,
    decreases j - i,
{
    if i < j {
        assert(is_digit(s[i]));
        lemma_digits_end_exact(s, i + 1, j);
    }
}

/// Reading back a formatted integer: the parser takes exactly its text
/// when what follows cannot extend a number.
pub proof fn lemma_num_roundtrip(s: Seq<u8>, i: int, n: i64)
    requires
        0 <= i,
        i + crate::num::i64_dec(n as int).len() <= s.len(),
        s.subrange(i, i + crate::num::i64_dec(n as int).len()) == crate::num::i64_dec(n as int),
        ({
            let j = i + crate::num::i64_dec(n as int).len();
            j == s.len() || !(is_digit(s[j]) || s[j] == 46 || s[j] == 101 || s[j] == 69)
        }),
    ensures
        parse_num(s, i) == Some(
            (crate::num::i64_dec(n as int), i + crate::num::i64_dec(n as int).len()),
        ),
{
    let d = crate::num::i64_dec(n as int);
    let j = i + d.len();
    let mag = if n >= 0 {
        n as int
    } else {
        -(n as int)
    };
    crate::num::lemma_u64_dec_props(mag as nat);
    let u = crate::num::u64_dec(mag as nat);
    assert forall|k: int| 0 <= k < d.len() implies s[i + k] == d[k] by {
        assert(s.subrange(i, j)[k] == s[i + k]);
    }
    let i1 = if n < 0 {
        i + 1
    } else {
        i
    };
    if n < 0 {
        assert(d == seq![45u8] + u);
        assert(s[i + 0] == d[0]);
        assert(d[0] == 45);
        assert forall|k: int| i1 <= k < j implies is_digit(#[trigger] s[k]) by {
            assert(s[k] == d[k - i]);
            assert(d[k - i] == u[k - i - 1]);
        }
        assert(s[i1] == d[1]);
        assert(is_digit(s[i1]));
    } else {
        assert(d == u);
        assert forall|k: int| i1 <= k < j implies is_digit(#[trigger] s[k]) by {
            assert(s[k] == d[k - i]);
        }
        assert(s[i + 0] == d[0]);
        assert(is_digit(s[i]));
        assert(s[i] != 45);
    }
    lemma_digits_end_exact(s, i1, j);
    assert(digits_end(s, i1) == j);
    if j < s.len() {
        assert(!(s[j] == 46 && is_digit(s[j])));
    }
    assert(s.subrange(i, j) =~= d);
}

/// Whether every member of an object is a primitive the serializer and
/// parser agree on: a string, a formatted integer, or null.
pub open spec fn primitive_members(ms: Seq<(Seq<u8>, JVal)>) -> bool {
    forall|j: int|
        0 <= j < ms.len() ==> match (#[trigger] ms[j]).1 {
            JVal::Str(_) => true,
            JVal::Num(t) => exists|n: i64| t == crate::num::i64_dec(n as int),
            JVal::Null => true,
            _ => false,
        }
}

/// Reading back a serialized member list: from the first key's position,
/// the parser recovers exactly the members and stops after the closing
/// brace.
pub proof fn lemma_obj_members_roundtrip(s: Seq<u8>, i: int, ms: Seq<(Seq<u8>, JVal)>)
    requires
        0 <= i,
        ms.len() > 0,
        primitive_members(ms),
        i + json_text_members(ms).len() + 1 <= s.len(),
        s.subrange(i, i + json_text_members(ms).len() + 1) == json_text_members(ms) + seq![125u8],
    ensures
        parse_obj_tail(s, i) == Some((ms, i + json_text_members(ms).len() + 1)),
    decreases ms.len(),
{
    let k0 = ms[0].0;
    let v0 = ms[0].1;
    let head = seq![34u8] + esc_bytes(k0) + seq![34u8, 58u8] + json_text(v0);
    let mt = json_text_members(ms);
    let end = i + mt.len() + 1;
    assert forall|k: int| 0 <= k < mt.len() implies s[i + k] == mt[k] by {
        assert(s.subrange(i, end)[k] == s[i + k]);
        assert((mt + seq![125u8])[k] == mt[k]);
    }
    assert(s.subrange(i, end)[mt.len() as int] == s[i + mt.len()]);
    assert(s[i + mt.len()] == 125);
    if ms.len() == 1 {
        assert(mt == head);
    } else {
        assert(mt == head + seq![44u8] + json_text_members(ms.subrange(1, ms.len() as int)));
    }
    assert forall|k: int| 0 <= k < head.len() implies s[i + k] == head[k] by {
        if ms.len() == 1 {
        } else {
            assert(mt[k] == head[k]);
        }
    }
    // the key string
    assert(s[i + 0] == head[0]);
    assert(s[i] == 34);
    let el = esc_bytes(k0).len() as int;
    assert(s.subrange(i + 1, i + 1 + el + 1) =~= esc_bytes(k0) + seq![34u8]) by {
        assert forall|k: int| 0 <= k < el + 1 implies s.subrange(i + 1, i + 1 + el + 1)[k] == (
        esc_bytes(k0) + seq![34u8])[k] by {
            assert(s.subrange(i + 1, i + 1 + el + 1)[k] == s[i + 1 + k]);
            assert(s[i + 1 + k] == head[1 + k]);
            assert(head[1 + k] == (esc_bytes(k0) + seq![34u8, 58u8] + json_text(v0))[k]);
        }
    }
    lemma_esc_roundtrip(s, i + 1, k0);
    let j0 = i + 1 + el + 1;
    assert(parse_str_body(s, i + 1) == Some((k0, j0)));
    // the colon, with no whitespace around it
    assert(s[i + (el + 2)] == head[el + 2]);
    assert(s[i + el + 2] == 58);
    assert(skip_ws(s, j0) == j0);
    let iv = j0 + 1;
    assert(skip_ws(s, iv) == iv) by {
        assert(s[i + (el + 3)] == head[el + 3]);
        assert(head[el + 3] == json_text(v0)[0]);
        lemma_primitive_first_byte(v0);
    }
    assert(step_pos(i, iv, s.len() as int) == iv);
    // the value
    let vt = json_text(v0);
    let jv = iv + vt.len();
    assert forall|k: int| 0 <= k < vt.len() implies s[iv + k] == vt[k] by {
        assert(s[i + (el + 3 + k)] == head[el + 3 + k]);
        assert(head[el + 3 + k] == vt[k]);
    }
    // what follows the value: a comma or the closing brace
    assert(s[jv] == (if ms.len() == 1 {
        125u8
    } else {
        44u8
    })) by {
        if ms.len() == 1 {
            assert(jv == i + mt.len());
        } else {
            assert(s[i + (head.len() as int)] == mt[head.len() as int]);
        }
    }
    lemma_primitive_value_parse(s, iv, v0, jv);
    assert(parse_value(s, iv) == Some((v0, jv)));
    assert(skip_ws(s, jv) == jv);
    if ms.len() == 1 {
        assert(s[jv] == 125);
        assert(seq![(k0, v0)] =~= ms);
        assert(parse_obj_tail(s, i) == Some((ms, jv + 1)));
        assert(jv + 1 == end);
    } else {
        assert(s[jv] == 44);
        let rest = ms.subrange(1, ms.len() as int);
        let rt = json_text_members(rest);
        let i2 = jv + 1;
        assert(skip_ws(s, i2) == i2) by {
            assert(s[i + (head.len() as int + 1)] == mt[head.len() as int + 1]);
            assert(mt[head.len() as int + 1] == rt[0]);
            lemma_members_first_byte(rest);
        }
        assert(step_pos(i, i2, s.len() as int) == i2);
        assert(s.subrange(i2, i2 + rt.len() + 1) =~= rt + seq![125u8]) by {
            assert forall|k: int| 0 <= k < rt.len() + 1 implies s.subrange(
                i2,
                i2 + rt.len() + 1,
            )[k] == (rt + seq![125u8])[k] by {
                assert(s.subrange(i2, i2 + rt.len() + 1)[k] == s[i2 + k]);
                if k < rt.len() {
                    assert(s[i + (head.len() as int + 1 + k)] == mt[head.len() as int + 1 + k]);
                    assert(mt[head.len() as int + 1 + k] == rt[k]);
                } else {
                    assert(i2 + k == i + mt.len());
                }
            }
        }
        assert(primitive_members(rest)) by {
            assert forall|j: int| 0 <= j < rest.len() implies match (#[trigger] rest[j]).1 {
                JVal::Str(_) => true,
                JVal::Num(t) => exists|n: i64| t == crate::num::i64_dec(n as int),
                JVal::Null => true,
                _ => false,
            } by {
                assert(rest[j] == ms[j + 1]);
            }
        }
        lemma_obj_members_roundtrip(s, i2, rest);
        assert(seq![(k0, v0)] + rest =~= ms);
        assert(i2 + rt.len() + 1 == end);
        assert(parse_obj_tail(s, i) == Some((ms, end)));
    }
}

/// A primitive value's text starts with a byte that is neither whitespace
/// nor a closing token.
proof fn lemma_primitive_first_byte(v: JVal)
    requires
        v matches JVal::Str(_) || (v matches JVal::Num(t) && (exists|n: i64|
            t == crate::num::i64_dec(n as int))) || v is Null,
    ensures
        json_text(v).len() > 0,
        !is_ws(json_text(v)[0]),
    decreases v,
{
    match v {
        JVal::Num(t) => {
            let n = choose|n: i64| t == crate::num::i64_dec(n as int);
            crate::num::lemma_u64_dec_props((if n >= 0 {
                n as int
            } else {
                -(n as int)
            }) as nat);
        },
        _ => {},
    }
}

/// A member list's text starts with the opening quote of its first key.
proof fn lemma_members_first_byte(ms: Seq<(Seq<u8>, JVal)>)
    requires
        ms.len() > 0,
    ensures
        json_text_members(ms).len() > 0,
        json_text_members(ms)[0] == 34,
{
}

/// Reading back a primitive value at its exact position.
proof fn lemma_primitive_value_parse(s: Seq<u8>, iv: int, v: JVal, jv: int)
    requires
        0 <= iv,
        v matches JVal::Str(_) || (v matches JVal::Num(t) && (exists|n: i64|
            t == crate::num::i64_dec(n as int))) || v is Null,
        jv == iv + json_text(v).len(),
        jv < s.len(),
        forall|k: int| 0 <= k < json_text(v).len() ==> s[iv + k] == json_text(v)[k],
        s[jv] == 44 || s[jv] == 125,
    ensures
        parse_value(s, iv) == Some((v, jv)),
{
    match v {
        JVal::Null => {
            assert(json_text(v)[0] == 110 && json_text(v)[1] == 117 && json_text(v)[2] == 108
                && json_text(v)[3] == 108);
            assert(s[iv + 0] == 110 && s[iv + 1] == 117 && s[iv + 2] == 108 && s[iv + 3] == 108);
            assert(s.subrange(iv, iv + 4) =~= seq![110u8, 117u8, 108u8, 108u8]);
        },
        JVal::Str(t) => {
            assert(json_text(v)[0] == 34);
            assert(s[iv + 0] == 34);
            let el = esc_bytes(t).len();
            assert(s.subrange(iv + 1, iv + 1 + el + 1) =~= esc_bytes(t) + seq![34u8]) by {
                assert forall|k: int| 0 <= k < el + 1 implies s.subrange(
                    iv + 1,
                    iv + 1 + el + 1,
                )[k] == (esc_bytes(t) + seq![34u8])[k] by {
                    assert(s.subrange(iv + 1, iv + 1 + el + 1)[k] == s[iv + (1 + k)]);
                    assert(s[iv + (1 + k)] == json_text(v)[1 + k]);
                }
            }
            lemma_esc_roundtrip(s, iv + 1, t);
        },
        JVal::Num(t) => {
            let n = choose|n: i64| t == crate::num::i64_dec(n as int);
            crate::num::lemma_u64_dec_props((if n >= 0 {
                n as int
            } else {
                -(n as int)
            }) as nat);
            assert(s.subrange(iv, iv + t.len() as int) =~= t) by {
                assert forall|k: int| 0 <= k < t.len() implies s.subrange(
                    iv,
                    iv + t.len() as int,
                )[k] == t[k] by {
                    assert(s.subrange(iv, iv + t.len() as int)[k] == s[iv + k]);
                }
            }
            lemma_num_roundtrip(s, iv, n);
            assert(json_text(v)[0] == t[0]);
            assert(s[iv + 0] == t[0]);
            if n >= 0 {
                assert(is_digit(s[iv]));
            } else {
                assert(t == seq![45u8] + crate::num::u64_dec((-(n as int)) as nat));
                assert(s[iv] == 45);
            }
        },
        _ => {},
    }
}

} // verus!
