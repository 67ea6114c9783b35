use vstd::prelude::*;

use crate::error::TxError;
use crate::hex::{
    address_bytes, all_hex, hex_digit_value, hex_val, is_address_text, is_hex_digit, parse_address,
};
use crate::ident::copy_range;
use crate::number::is_digit;
use crate::split::{
    balanced, cut_list, cuts_at_top_commas, is_space, lemma_cut_list_at, lemma_cut_list_intro, next_cut, split_top_level, trim_hi, trim_lo,
    trim_range, trimmed,
};
use crate::types::Literal;

verus! {

pub open spec fn true_text() -> Seq<u8> {
    seq![116u8, 114u8, 117u8, 101u8]
}

pub open spec fn false_text() -> Seq<u8> {
    seq![102u8, 97u8, 108u8, 115u8, 101u8]
}

/// The byte width that an integer suffix (the text after `_`) names, or zero.
pub open spec fn suffix_width(s: Seq<u8>) -> nat {
    if s == seq![117u8, 56u8] {
        1
    } else if s == seq![117u8, 49u8, 54u8] {
        2
    } else if s == seq![117u8, 51u8, 50u8] {
        4
    } else if s == seq![117u8, 54u8, 52u8] {
        8
    } else if s == seq![117u8, 49u8, 50u8, 56u8] {
        16
    } else if s == seq![117u8, 50u8, 53u8, 54u8] {
        32
    } else {
        0
    }
}

/// The end of the run of decimal digits that starts at `i`.
pub open spec fn digit_run(t: Seq<u8>, i: int) -> int
    decreases t.len() - i,
{
    if i < 0 || i >= t.len() || !is_digit(t[i]) {
        i
    } else {
        digit_run(t, i + 1)
    }
}

/// The digits of a number literal, an optional `_u8` ... `_u256` suffix after them.
pub open spec fn number_parts(t: Seq<u8>) -> Option<(Seq<u8>, nat)> {
    let p = digit_run(t, 0);
    if p <= 0 {
        None
    } else if p == t.len() {
        Some((t, 0))
    } else if t[p] == 95u8 && suffix_width(t.subrange(p + 1, t.len() as int)) > 0 {
        Some((t.subrange(0, p), suffix_width(t.subrange(p + 1, t.len() as int))))
    } else {
        None
    }
}

/// The text between the quotes of `x"..."`.
pub open spec fn hex_string_body(t: Seq<u8>) -> Seq<u8> {
    t.subrange(2, t.len() - 1)
}

pub open spec fn is_hex_string(t: Seq<u8>) -> bool {
    &&& t.len() >= 3
    &&& t[0] == 120u8
    &&& t[1] == 34u8
    &&& t.last() == 34u8
    &&& hex_string_body(t).len() % 2 == 0
    &&& all_hex(hex_string_body(t))
}

/// The bytes that pairs of hex digits denote.
pub open spec fn hex_pairs(h: Seq<u8>) -> Seq<u8> {
    Seq::new(h.len() / 2, |i: int| (hex_val(h[2 * i]) * 16 + hex_val(h[2 * i + 1])) as u8)
}

/// What parsing the trimmed literal `t` yields, for every literal but a vector.
pub open spec fn scalar_literal_result(t: Seq<u8>, r: Result<Literal, TxError>) -> bool {
    if t == true_text() {
        r == Ok::<Literal, TxError>(Literal::Bool(true))
    } else if t == false_text() {
        r == Ok::<Literal, TxError>(Literal::Bool(false))
    } else if t.len() >= 2 && t[0] == 48u8 && t[1] == 120u8 {
        if is_address_text(t) {
            r matches Ok(Literal::Address(a)) && a.bytes@ == address_bytes(t)
        } else {
            r == Err::<Literal, TxError>(TxError::ParseError)
        }
    } else if t.len() >= 1 && t[0] == 120u8 {
        if is_hex_string(t) {
            r matches Ok(Literal::Bytes(b)) && b@ == hex_pairs(hex_string_body(t))
        } else {
            r == Err::<Literal, TxError>(TxError::ParseError)
        }
    } else {
        match number_parts(t) {
            Some((d, w)) => r matches Ok(Literal::Number { digits, suffix }) && digits@ == d && (
            if w == 0 {
                suffix is None
            } else {
                suffix == Some(w as usize)
            }),
            None => r == Err::<Literal, TxError>(TxError::ParseError),
        }
    }
}

pub open spec fn is_vector_text(t: Seq<u8>) -> bool {
    t.len() >= 1 && t[0] == 91u8
}

/// Reads the width suffix written after `_`.
fn parse_suffix(s: &[u8]) -> (r: usize)
    ensures
        r as nat == suffix_width(s@),
{
    let n = s.len();
    if n < 2 || n > 4 || s[0] != 117u8 {
        return 0;
    }
    if n == 2 {
        if s[1] == 56u8 {
            assert(s@ =~= seq![117u8, 56u8]);
            return 1;
        }
        return 0;
    }
    if n == 3 {
        if s[1] == 49u8 && s[2] == 54u8 {
            assert(s@ =~= seq![117u8, 49u8, 54u8]);
            return 2;
        }
        if s[1] == 51u8 && s[2] == 50u8 {
            assert(s@ =~= seq![117u8, 51u8, 50u8]);
            return 4;
        }
        if s[1] == 54u8 && s[2] == 52u8 {
            assert(s@ =~= seq![117u8, 54u8, 52u8]);
            return 8;
        }
        return 0;
    }
    if s[1] == 49u8 && s[2] == 50u8 && s[3] == 56u8 {
        assert(s@ =~= seq![117u8, 49u8, 50u8, 56u8]);
        return 16;
    }
    if s[1] == 50u8 && s[2] == 53u8 && s[3] == 54u8 {
        assert(s@ =~= seq![117u8, 50u8, 53u8, 54u8]);
        return 32;
    }
    0
}

pub open spec fn all_space(s: Seq<u8>) -> bool {
    forall|p: int| 0 <= p < s.len() ==> is_space(#[trigger] s[p])
}

/// Every scalar form that parses: a boolean, an address, a byte string or a number.
pub open spec fn scalar_text_ok(t: Seq<u8>) -> bool {
    if t == true_text() || t == false_text() {
        true
    } else if t.len() >= 2 && t[0] == 48u8 && t[1] == 120u8 {
        is_address_text(t)
    } else if t.len() >= 1 && t[0] == 120u8 {
        is_hex_string(t)
    } else {
        number_parts(t) is Some
    }
}

/// The trimmed text `t` is a well-formed literal.
pub open spec fn literal_text_ok(t: Seq<u8>) -> bool
    decreases t.len(), 0int, 0int,
{
    if is_vector_text(t) {
        t.len() >= 2 && t.last() == 93u8 && list_text_ok(t.subrange(1, t.len() - 1))
    } else {
        scalar_text_ok(t)
    }
}

/// The pieces of `s` from `from` on, cut at top-level commas, are
/// non-empty once trimmed and each a well-formed literal.
pub open spec fn items_text_ok(s: Seq<u8>, from: int) -> bool
    decreases s.len(), 1int, s.len() - from,
{
    let e = next_cut(s, from);
    let a = trim_lo(s, from, e);
    let b = trim_hi(s, a, e);
    &&& 0 <= from <= e <= s.len()
    &&& 0 <= a < b <= s.len()
    &&& literal_text_ok(s.subrange(a, b))
    &&& e < s.len() ==> items_text_ok(s, e + 1)
}

/// `s` is a well-formed comma-separated list of literals (whitespace alone
/// is the empty list).
pub open spec fn list_text_ok(s: Seq<u8>) -> bool
    decreases s.len(), 2int, 0int,
{
    all_space(s) || (balanced(s) && items_text_ok(s, 0))
}

/// The trimmed text `t` reads as the literal `l`; the items of a vector read
/// as the list between its brackets.
pub open spec fn literal_reads_as(t: Seq<u8>, l: Literal) -> bool
    decreases t.len(), 0int, 0int,
{
    if is_vector_text(t) {
        t.len() >= 2 && t.last() == 93u8 && (l matches Literal::Vector(v) && list_reads_as(
            t.subrange(1, t.len() - 1),
            v@,
        ))
    } else {
        scalar_literal_result(t, Ok::<Literal, TxError>(l))
    }
}

/// The pieces of `s` from `from` on read as `v`, one literal per piece.
pub open spec fn items_read_as(s: Seq<u8>, from: int, v: Seq<Literal>) -> bool
    decreases s.len(), 1int, s.len() - from,
{
    let e = next_cut(s, from);
    let a = trim_lo(s, from, e);
    let b = trim_hi(s, a, e);
    &&& 0 <= from <= e <= s.len()
    &&& 0 <= a < b <= s.len()
    &&& v.len() > 0
    &&& literal_reads_as(s.subrange(a, b), v[0])
    &&& if e < s.len() {
        items_read_as(s, e + 1, v.drop_first())
    } else {
        v.len() == 1
    }
}

/// `v` is what the comma-separated literals in `s` read as.
pub open spec fn list_reads_as(s: Seq<u8>, v: Seq<Literal>) -> bool
    decreases s.len(), 2int, 0int,
{
    if all_space(s) {
        v.len() == 0
    } else {
        balanced(s) && items_read_as(s, 0, v)
    }
}

fn parse_hex_string(t: &[u8]) -> (r: Result<Vec<u8>, TxError>)
    requires
        t@.len() >= 1,
        t@[0] == 120u8,
    ensures
        is_hex_string(t@) ==> (r matches Ok(b) && b@ == hex_pairs(hex_string_body(t@))),
        !is_hex_string(t@) ==> r == Err::<Vec<u8>, TxError>(TxError::ParseError),
{
    let n = t.len();
    if n < 3 || t[1] != 34u8 || t[n - 1] != 34u8 || (n - 3) % 2 != 0 {
        return Err(TxError::ParseError);
    }
    let ghost h = hex_string_body(t@);
    let m: usize = (n - 3) / 2;
    let mut out: Vec<u8> = Vec::new();
    let mut i: usize = 0;
    while i < m
        invariant
            n == t@.len(),
            n >= 3,
            h == t@.subrange(2, n - 1),
            h.len() == 2 * m,
            i <= m,
            out@.len() == i,
            forall|j: int| 0 <= j < 2 * i ==> is_hex_digit(#[trigger] h[j]),
            forall|j: int| 0 <= j < i ==> #[trigger] out@[j] == hex_pairs(h)[j],
        decreases m - i,
    {
        let c1 = t[2 + 2 * i];
        let c2 = t[3 + 2 * i];
        assert(h[2 * i] == c1 && h[2 * i + 1] == c2);
        let v1 = match hex_digit_value(c1) {
            Some(v) => v,
            None => return Err(TxError::ParseError),
        };
        let v2 = match hex_digit_value(c2) {
            Some(v) => v,
            None => return Err(TxError::ParseError),
        };
        out.push(v1 * 16 + v2);
        i = i + 1;
    }
    assert(out@ =~= hex_pairs(h));
    Ok(out)
}

/// Parses one trimmed literal: `true`, `false`, an `0x` address, a `x"..."` byte
/// string, a decimal number with an optional `_u8` ... `_u256` suffix, or a
/// bracketed vector of literals.
pub fn parse_literal(t: &[u8]) -> (r: Result<Literal, TxError>)
    ensures
        !is_vector_text(t@) ==> scalar_literal_result(t@, r),
        r is Ok <==> literal_text_ok(t@),
        r matches Ok(l) ==> literal_reads_as(t@, l),
        r matches Err(e) ==> e == TxError::ParseError,
    decreases t@.len(), 0int, 0int,
{
    let n = t.len();
    if n == 4 && t[0] == 116u8 && t[1] == 114u8 && t[2] == 117u8 && t[3] == 101u8 {
        assert(t@ =~= true_text());
        return Ok(Literal::Bool(true));
    }
    if n == 5 && t[0] == 102u8 && t[1] == 97u8 && t[2] == 108u8 && t[3] == 115u8 && t[4] == 101u8 {
        assert(t@ =~= false_text());
        return Ok(Literal::Bool(false));
    }
    if n >= 2 && t[0] == 48u8 && t[1] == 120u8 {
        return match parse_address(t) {
            Ok(a) => Ok(Literal::Address(a)),
            Err(_) => Err(TxError::ParseError),
        };
    }
    if n >= 1 && t[0] == 120u8 {
        return match parse_hex_string(t) {
            Ok(b) => Ok(Literal::Bytes(b)),
            Err(e) => Err(e),
        };
    }
    if n >= 1 && t[0] == 91u8 {
        if n < 2 || t[n - 1] != 93u8 {
            return Err(TxError::ParseError);
        }
        let inner = copy_range(t, 1, n - 1);
        return match parse_args(inner.as_slice()) {
            Ok(v) => Ok(Literal::Vector(v)),
            Err(e) => Err(e),
        };
    }
    let mut p: usize = 0;
    while p < n && 48u8 <= t[p] && t[p] <= 57u8
        invariant
            p <= n,
            n == t@.len(),
            digit_run(t@, 0) == digit_run(t@, p as int),
            forall|j: int| 0 <= j < p ==> is_digit(#[trigger] t@[j]),
        decreases n - p,
    {
        p = p + 1;
    }
    if p == 0 {
        return Err(TxError::ParseError);
    }
    if p == n {
        let digits = copy_range(t, 0, n);
        assert(digits@ =~= t@);
        return Ok(Literal::Number { digits, suffix: None });
    }
    if t[p] != 95u8 {
        return Err(TxError::ParseError);
    }
    let sfx = copy_range(t, p + 1, n);
    let w = parse_suffix(sfx.as_slice());
    if w == 0 {
        return Err(TxError::ParseError);
    }
    let digits = copy_range(t, 0, p);
    Ok(Literal::Number { digits, suffix: Some(w) })
}

/// Parses comma-separated literals; text of whitespace alone holds none.
pub fn parse_args(s: &[u8]) -> (r: Result<Vec<Literal>, TxError>)
    ensures
        all_space(s@) ==> (r matches Ok(v) && v@.len() == 0),
        r is Ok <==> list_text_ok(s@),
        r matches Ok(v) ==> list_reads_as(s@, v@),
        r matches Err(e) ==> e == TxError::ParseError,
    decreases s@.len(), 2int, 0int,
{
    let whole = trim_range(s, 0, s.len());
    if whole.0 == whole.1 {
        assert(all_space(s@)) by {
            assert forall|p: int| 0 <= p < s@.len() implies is_space(#[trigger] s@[p]) by {
                if p >= whole.0 {
                    assert(whole.1 <= p);
                }
            }
        }
        let v: Vec<Literal> = Vec::new();
        return Ok(v);
    }
    assert(!is_space(s@[whole.0 as int]));
    assert(!all_space(s@));
    let cuts = match split_top_level(s) {
        Ok(c) => c,
        Err(e) => return Err(e),
    };
    proof {
        lemma_cut_list_intro(s@, cuts@);
        lemma_cut_list_at(s@, cuts@, 0);
    }
    parse_items(s, &cuts, 0)
}

/// Parses the pieces of `s` from the `k`-th cut on.
#[verifier::rlimit(60)]
fn parse_items(s: &[u8], cuts: &Vec<(usize, usize)>, k: usize) -> (r: Result<Vec<Literal>, TxError>)
    requires
        cut_list(s@, cuts@),
        k < cuts@.len(),
    ensures
        r is Ok <==> items_text_ok(s@, cuts@[k as int].0 as int),
        r matches Ok(v) ==> items_read_as(s@, cuts@[k as int].0 as int, v@),
        r matches Err(e) ==> e == TxError::ParseError,
    decreases s@.len(), 1int, cuts@.len() - k,
{
    let (lo, hi) = cuts[k];
    proof {
        lemma_cut_list_at(s@, cuts@, k as int);
    }
    let ghost e = next_cut(s@, lo as int);
    assert(e == hi);
    let (a, b) = trim_range(s, lo, hi);
    let ghost last = k + 1 == cuts@.len();
    assert(last ==> hi == s@.len());
    assert(!last ==> cuts@[k as int + 1].0 == hi + 1 && hi < s@.len());
    if a == b {
        assert(!items_text_ok(s@, lo as int));
        return Err(TxError::ParseError);
    }
    let piece = copy_range(s, a, b);
    assert(piece@ == s@.subrange(a as int, b as int));
    let l = match parse_literal(piece.as_slice()) {
        Ok(l) => l,
        Err(e) => {
            assert(!items_text_ok(s@, lo as int));
            return Err(e);
        },
    };
    if k == cuts.len() - 1 {
        let mut v: Vec<Literal> = Vec::new();
        v.push(l);
        assert(v@[0] == l);
        assert(items_text_ok(s@, lo as int));
        assert(items_read_as(s@, lo as int, v@));
        return Ok(v);
    }
    let mut rest = match parse_items(s, cuts, k + 1) {
        Ok(v) => v,
        Err(e) => {
            assert(!items_text_ok(s@, lo as int));
            return Err(e);
        },
    };
    let ghost rv = rest@;
    rest.insert(0, l);
    assert(rest@.drop_first() =~= rv);
    assert(rest@[0] == l);
    assert(items_text_ok(s@, lo as int));
    assert(items_read_as(s@, lo as int, rest@));
    Ok(rest)
}

} // verus!
