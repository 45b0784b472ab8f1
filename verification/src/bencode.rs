//! The torrent serialization syntax: a self-describing binary format made of
//! integers (`i...e`), length-prefixed byte strings (`4:abcd`), lists
//! (`l...e`) and keyed maps (`d...e`). The spec functions define the grammar;
//! the decoder is proved to follow them exactly, so decoding is a function of
//! the byte buffer alone.

use vstd::prelude::*;
use crate::value::{DecodeError, SpecValue, DocValue, list_view, pairs_view, lemma_list_view,
    lemma_pairs_view};

verus! {

pub open spec fn is_digit(b: u8) -> bool {
    0x30 <= b <= 0x39
}

/// The first position at or after `i` that does not hold a decimal digit.
pub open spec fn digits_end(s: Seq<u8>, i: int) -> int
    decreases s.len() - i,
{
    if 0 <= i < s.len() && is_digit(s[i]) {
        digits_end(s, i + 1)
    } else {
        i
    }
}

/// The numeric value of the decimal digits `s[i .. j)`.
pub open spec fn digits_val(s: Seq<u8>, i: int, j: int) -> int
    decreases j - i,
{
    if i < j {
        digits_val(s, i, j - 1) * 10 + (s[j - 1] - 0x30)
    } else {
        0
    }
}

proof fn lemma_digits_val_nonneg(s: Seq<u8>, i: int, j: int)
    requires
        forall|k: int| i <= k < j ==> is_digit(s[k]),
    ensures
        digits_val(s, i, j) >= 0,
    decreases j - i,
{
    if i < j {
        lemma_digits_val_nonneg(s, i, j - 1);
    }
}

/// A byte string at `i`: its length in decimal digits, a colon, the bytes.
pub open spec fn parse_bytes(s: Seq<u8>, i: int) -> Option<(Seq<u8>, int)> {
    let e = digits_end(s, i);
    if i < e && e < s.len() && s[e] == 0x3a {
        let n = digits_val(s, i, e);
        if e + 1 + n <= s.len() {
            Some((s.subrange(e + 1, e + 1 + n), e + 1 + n))
        } else {
            None
        }
    } else {
        None
    }
}

/// An integer at `i` (which holds the `i` marker): an optional minus sign,
/// decimal digits, the `e` terminator. Values outside the signed 64-bit
/// range are rejected.
pub open spec fn parse_int_val(s: Seq<u8>, i: int) -> Option<(int, int)> {
    let neg = i + 1 < s.len() && s[i + 1] == 0x2d;
    let d = if neg {
        i + 2
    } else {
        i + 1
    };
    let e = digits_end(s, d);
    if d < e && e < s.len() && s[e] == 0x65 {
        let m = digits_val(s, d, e);
        let v: int = if neg {
            -m
        } else {
            m
        };
        if i64::MIN <= v <= i64::MAX {
            Some((v, e + 1))
        } else {
            None
        }
    } else {
        None
    }
}

/// A single document node at position `i`.
pub open spec fn parse_val(s: Seq<u8>, i: int) -> Option<(SpecValue, int)>
    decreases s.len() - i, 0int,
{
    if i < 0 || i >= s.len() {
        None
    } else if s[i] == 0x69 {
        match parse_int_val(s, i) {
            Some((v, j)) => Some((SpecValue::Int(v), j)),
            None => None,
        }
    } else if is_digit(s[i]) {
        match parse_bytes(s, i) {
            Some((b, j)) => Some((SpecValue::Bytes(b), j)),
            None => None,
        }
    } else if s[i] == 0x6c {
        match parse_items(s, i + 1) {
            Some((vs, j)) => Some((SpecValue::List(vs), j)),
            None => None,
        }
    } else if s[i] == 0x64 {
        match parse_pairs(s, i + 1) {
            Some((ps, j)) => Some((SpecValue::Dict(ps), j)),
            None => None,
        }
    } else {
        None
    }
}

/// The elements of a list body up to and including its `e` terminator.
pub open spec fn parse_items(s: Seq<u8>, i: int) -> Option<(Seq<SpecValue>, int)>
    decreases s.len() - i, 1int,
{
    if i < 0 || i >= s.len() {
        None
    } else if s[i] == 0x65 {
        Some((Seq::empty(), i + 1))
    } else {
        match parse_val(s, i) {
            Some((v, j)) => if i < j <= s.len() {
                match parse_items(s, j) {
                    Some((vs, k)) => Some((seq![v] + vs, k)),
                    None => None,
                }
            } else {
                None
            },
            None => None,
        }
    }
}

/// The entries of a keyed-map body up to and including its `e` terminator.
pub open spec fn parse_pairs(s: Seq<u8>, i: int) -> Option<(Seq<(Seq<u8>, SpecValue)>, int)>
    decreases s.len() - i, 1int,
{
    if i < 0 || i >= s.len() {
        None
    } else if s[i] == 0x65 {
        Some((Seq::empty(), i + 1))
    } else if is_digit(s[i]) {
        match parse_bytes(s, i) {
            Some((kb, j)) => if i < j <= s.len() {
                match parse_val(s, j) {
                    Some((v, j2)) => if j < j2 <= s.len() {
                        match parse_pairs(s, j2) {
                            Some((ps, k)) => Some((seq![(kb, v)] + ps, k)),
                            None => None,
                        }
                    } else {
                        None
                    },
                    None => None,
                }
            } else {
                None
            },
            None => None,
        }
    } else {
        None
    }
}

/// A whole document: one node that spans the entire buffer.
pub open spec fn parse_doc(s: Seq<u8>) -> Option<SpecValue> {
    match parse_val(s, 0) {
        Some((v, j)) => if j == s.len() {
            Some(v)
        } else {
            None
        },
        None => None,
    }
}

/// Scans the digit run starting at `i`, accumulating its value up to `cap`.
/// The third result reports that the value exceeds `cap`.
fn scan_digits(s: &[u8], i: usize, cap: u64) -> (r: (usize, u64, bool))
    requires
        i <= s@.len(),
    ensures
        r.0 == digits_end(s@, i as int),
        i <= r.0 <= s@.len(),
        forall|k: int| i <= k < r.0 ==> is_digit(s@[k]),
        !r.2 ==> r.1 == digits_val(s@, i as int, r.0 as int) && r.1 <= cap,
        r.2 ==> digits_val(s@, i as int, r.0 as int) > cap,
{
    let mut e: usize = i;
    let mut n: u128 = 0;
    let mut of: bool = false;
    while e < s.len() && 0x30 <= s[e] && s[e] <= 0x39
        invariant
            i <= e <= s@.len(),
            digits_end(s@, i as int) == digits_end(s@, e as int),
            forall|k: int| i <= k < e ==> is_digit(s@[k]),
            !of ==> n == digits_val(s@, i as int, e as int) && n <= cap as u128,
            of ==> digits_val(s@, i as int, e as int) > cap,
        decreases s@.len() - e,
    {
        let d: u128 = (s[e] - 0x30) as u128;
        proof {
            lemma_digits_val_nonneg(s@, i as int, e as int);
        }
        if !of {
            let n2: u128 = n * 10 + d;
            if n2 > cap as u128 {
                of = true;
            } else {
                n = n2;
            }
        }
        e = e + 1;
    }
    if of {
        (e, 0, true)
    } else {
        (e, n as u64, false)
    }
}

/// Decodes a byte string at `i`.
fn decode_bytes(s: &[u8], i: usize) -> (r: Option<(Vec<u8>, usize)>)
    requires
        i <= s@.len(),
    ensures
        r is Some <==> parse_bytes(s@, i as int) is Some,
        r matches Some((b, j)) ==> parse_bytes(s@, i as int) == Some((b@, j as int)) && i < j
            <= s@.len(),
{
    let (e, n, of) = scan_digits(s, i, s.len() as u64);
    proof {
        lemma_digits_val_nonneg(s@, i as int, e as int);
    }
    if of {
        return None;
    }
    if e == i || e >= s.len() || s[e] != 0x3a {
        return None;
    }
    let n_us: usize = n as usize;
    if n_us > s.len() - (e + 1) {
        return None;
    }
    let b = vstd::slice::slice_subrange(s, e + 1, e + 1 + n_us);
    Some((vstd::slice::slice_to_vec(b), e + 1 + n_us))
}

/// Decodes an integer node whose marker byte stands at `i`.
fn decode_int(s: &[u8], i: usize) -> (r: Option<(i64, usize)>)
    requires
        i < s@.len(),
    ensures
        r is Some <==> parse_int_val(s@, i as int) is Some,
        r matches Some((v, j)) ==> parse_int_val(s@, i as int) == Some((v as int, j as int)) && i
            < j <= s@.len(),
{
    let slen = s.len();
    let neg = i + 1 < slen && s[i + 1] == 0x2d;
    let d: usize = if neg {
        i + 2
    } else {
        i + 1
    };
    let (e, m, of) = scan_digits(s, d, 9223372036854775808u64);
    proof {
        lemma_digits_val_nonneg(s@, d as int, e as int);
    }
    if of {
        return None;
    }
    if e == d || e >= s.len() || s[e] != 0x65 {
        return None;
    }
    if neg {
        if m == 9223372036854775808u64 {
            return Some((i64::MIN, e + 1));
        }
        return Some((-(m as i64), e + 1));
    }
    if m > i64::MAX as u64 {
        return None;
    }
    Some((m as i64, e + 1))
}

/// Decodes one document node at `i`.
fn decode_val(s: &[u8], i: usize) -> (r: Option<(DocValue, usize)>)
    requires
        i <= s@.len(),
    ensures
        r is Some <==> parse_val(s@, i as int) is Some,
        r matches Some((v, j)) ==> parse_val(s@, i as int) == Some((v@, j as int)) && i < j
            <= s@.len(),
    decreases s@.len() - i, 0int,
{
    if i >= s.len() {
        return None;
    }
    let c = s[i];
    if c == 0x69 {
        match decode_int(s, i) {
            Some((v, j)) => Some((DocValue::Int(v), j)),
            None => None,
        }
    } else if 0x30 <= c && c <= 0x39 {
        match decode_bytes(s, i) {
            Some((b, j)) => Some((DocValue::Bytes(b), j)),
            None => None,
        }
    } else if c == 0x6c {
        match decode_items(s, i + 1) {
            Some((vs, j)) => Some((DocValue::List(vs), j)),
            None => None,
        }
    } else if c == 0x64 {
        match decode_pairs(s, i + 1) {
            Some((ps, j)) => Some((DocValue::Dict(ps), j)),
            None => None,
        }
    } else {
        None
    }
}

/// Decodes the elements of a list body.
fn decode_items(s: &[u8], i: usize) -> (r: Option<(Vec<DocValue>, usize)>)
    requires
        i <= s@.len(),
    ensures
        r is Some <==> parse_items(s@, i as int) is Some,
        r matches Some((vs, j)) ==> parse_items(s@, i as int) == Some((list_view(vs@), j as int))
            && i < j <= s@.len(),
    decreases s@.len() - i, 1int,
{
    if i >= s.len() {
        return None;
    }
    if s[i] == 0x65 {
        let out: Vec<DocValue> = Vec::new();
        proof {
            assert(list_view(out@) =~= Seq::<SpecValue>::empty());
        }
        return Some((out, i + 1));
    }
    match decode_val(s, i) {
        Some((v, j)) => match decode_items(s, j) {
            Some((vs, k)) => {
                let ghost tail = vs@;
                let mut vs = vs;
                vs.insert(0, v);
                proof {
                    lemma_list_view(tail);
                    lemma_list_view(vs@);
                    assert(list_view(vs@) =~= seq![v@] + list_view(tail));
                }
                Some((vs, k))
            },
            None => None,
        },
        None => None,
    }
}

/// Decodes the entries of a keyed-map body.
fn decode_pairs(s: &[u8], i: usize) -> (r: Option<(Vec<(Vec<u8>, DocValue)>, usize)>)
    requires
        i <= s@.len(),
    ensures
        r is Some <==> parse_pairs(s@, i as int) is Some,
        r matches Some((ps, j)) ==> parse_pairs(s@, i as int) == Some((pairs_view(ps@), j as int))
            && i < j <= s@.len(),
    decreases s@.len() - i, 1int,
{
    if i >= s.len() {
        return None;
    }
    if s[i] == 0x65 {
        let out: Vec<(Vec<u8>, DocValue)> = Vec::new();
        proof {
            assert(pairs_view(out@) =~= Seq::<(Seq<u8>, SpecValue)>::empty());
        }
        return Some((out, i + 1));
    }
    if !(0x30 <= s[i] && s[i] <= 0x39) {
        return None;
    }
    match decode_bytes(s, i) {
        Some((kb, j)) => match decode_val(s, j) {
            Some((v, j2)) => match decode_pairs(s, j2) {
                Some((ps, k)) => {
                    let ghost tail = ps@;
                    let mut ps = ps;
                    ps.insert(0, (kb, v));
                    proof {
                        lemma_pairs_view(tail);
                        lemma_pairs_view(ps@);
                        assert(pairs_view(ps@) =~= seq![(kb@, v@)] + pairs_view(tail));
                    }
                    Some((ps, k))
                },
                None => None,
            },
            None => None,
        },
        None => None,
    }
}

/// Decodes a whole document: exactly one node spanning the entire buffer.
/// Any syntactic fault is `DecodeError::MalformedBytes`.
pub fn parse_bencode(s: &[u8]) -> (r: Result<DocValue, DecodeError>)
    ensures
        r matches Ok(v) ==> parse_doc(s@) == Some(v@),
        r is Err <==> parse_doc(s@) is None,
        r matches Err(e) ==> e == DecodeError::MalformedBytes,
{
    match decode_val(s, 0) {
        Some((v, j)) => if j == s.len() {
            Ok(v)
        } else {
            Err(DecodeError::MalformedBytes)
        },
        None => Err(DecodeError::MalformedBytes),
    }
}

} // verus!
