use vstd::prelude::*;

use crate::error::TxError;

verus! {

/// How a byte changes the bracket nesting: `<` and `[` open, `>` and `]` close.
pub open spec fn bracket_delta(c: u8) -> int {
    if c == 60u8 || c == 91u8 {
        1
    } else if c == 62u8 || c == 93u8 {
        -1
    } else {
        0
    }
}

/// The nesting depth just before position `i`.
pub open spec fn depth(s: Seq<u8>, i: int) -> int
    decreases i,
{
    if i <= 0 {
        0
    } else {
        depth(s, i - 1) + bracket_delta(s[i - 1])
    }
}

/// No bracket closes one that was not opened, and every one opened is closed.
pub open spec fn balanced(s: Seq<u8>) -> bool {
    &&& forall|i: int| 0 <= i <= s.len() ==> #[trigger] depth(s, i) >= 0
    &&& depth(s, s.len() as int) == 0
}

/// A comma outside every bracket.
pub open spec fn is_top_comma(s: Seq<u8>, p: int) -> bool {
    0 <= p < s.len() && s[p] == 44u8 && depth(s, p) == 0
}

/// `r` cuts `s` at exactly its top-level commas.
pub open spec fn cuts_at_top_commas(s: Seq<u8>, r: Seq<(usize, usize)>) -> bool {
    &&& r.len() >= 1
    &&& r[0].0 == 0
    &&& r.last().1 == s.len()
    &&& forall|k: int| 0 <= k < r.len() ==> #[trigger] r[k].0 <= r[k].1
    &&& forall|k: int|
        0 <= k < r.len() - 1 ==> is_top_comma(s, #[trigger] r[k].1 as int) && r[k + 1].0 == r[k].1
            + 1
    &&& forall|k: int, p: int|
        #![trigger r[k], is_top_comma(s, p)]
        0 <= k < r.len() && r[k].0 <= p < r[k].1 ==> !is_top_comma(s, p)
}

pub open spec fn is_space(c: u8) -> bool {
    c == 32u8 || c == 9u8 || c == 10u8 || c == 13u8
}

/// `(a, b)` is `(lo, hi)` with surrounding whitespace removed.
pub open spec fn trimmed(s: Seq<u8>, lo: int, hi: int, a: int, b: int) -> bool {
    &&& lo <= a <= b <= hi
    &&& forall|p: int| lo <= p < a ==> is_space(#[trigger] s[p])
    &&& forall|p: int| b <= p < hi ==> is_space(#[trigger] s[p])
    &&& a < b ==> !is_space(s[a]) && !is_space(s[b - 1])
}

/// The first top-level comma at or after `from`, or the length.
pub open spec fn next_cut(s: Seq<u8>, from: int) -> int
    decreases s.len() - from,
{
    if from < 0 || from >= s.len() {
        s.len() as int
    } else if is_top_comma(s, from) {
        from
    } else {
        next_cut(s, from + 1)
    }
}

/// Where `s[lo..hi]` starts once leading whitespace is dropped.
pub open spec fn trim_lo(s: Seq<u8>, lo: int, hi: int) -> int
    decreases hi - lo,
{
    if lo >= hi || !is_space(s[lo]) {
        lo
    } else {
        trim_lo(s, lo + 1, hi)
    }
}

/// Where `s[lo..hi]` ends once trailing whitespace is dropped.
pub open spec fn trim_hi(s: Seq<u8>, lo: int, hi: int) -> int
    decreases hi - lo,
{
    if hi <= lo || !is_space(s[hi - 1]) {
        hi
    } else {
        trim_hi(s, lo, hi - 1)
    }
}

pub proof fn lemma_next_cut(s: Seq<u8>, from: int, e: int)
    requires
        0 <= from <= e <= s.len(),
        forall|p: int| from <= p < e ==> !is_top_comma(s, p),
        e == s.len() || is_top_comma(s, e),
    ensures
        next_cut(s, from) == e,
    decreases e - from,
{
    if from < e {
        lemma_next_cut(s, from + 1, e);
    }
}

pub proof fn lemma_cuts_next(s: Seq<u8>, r: Seq<(usize, usize)>, k: int)
    requires
        cuts_at_top_commas(s, r),
        0 <= k < r.len(),
    ensures
        next_cut(s, r[k].0 as int) == r[k].1 as int,
        r[k].1 <= s.len(),
{
    lemma_cuts_bounds(s, r, k);
    if k < r.len() - 1 {
        assert(is_top_comma(s, r[k].1 as int));
    }
    assert forall|p: int| r[k].0 <= p < r[k].1 implies !is_top_comma(s, p) by {
        assert(r[k].0 <= p < r[k].1);
    }
    lemma_next_cut(s, r[k].0 as int, r[k].1 as int);
}

pub proof fn lemma_cuts_bounds(s: Seq<u8>, r: Seq<(usize, usize)>, k: int)
    requires
        cuts_at_top_commas(s, r),
        0 <= k < r.len(),
    ensures
        r[k].1 <= s.len(),
{
    if k < r.len() - 1 {
        assert(is_top_comma(s, r[k].1 as int));
    }
}

/// `cuts_at_top_commas`, kept folded where only single cuts are needed.
#[verifier::opaque]
pub open spec fn cut_list(s: Seq<u8>, r: Seq<(usize, usize)>) -> bool {
    cuts_at_top_commas(s, r)
}

pub proof fn lemma_cut_list_intro(s: Seq<u8>, r: Seq<(usize, usize)>)
    requires
        cuts_at_top_commas(s, r),
    ensures
        cut_list(s, r),
{
    reveal(cut_list);
}

pub proof fn lemma_cut_list_at(s: Seq<u8>, r: Seq<(usize, usize)>, k: int)
    requires
        cut_list(s, r),
        0 <= k < r.len(),
    ensures
        next_cut(s, r[k].0 as int) == r[k].1 as int,
        r[k].0 <= r[k].1 <= s.len(),
        k == 0 ==> r[k].0 == 0,
        k == r.len() - 1 ==> r[k].1 == s.len(),
        k < r.len() - 1 ==> r[k + 1].0 == r[k].1 + 1 && r[k].1 < s.len(),
{
    reveal(cut_list);
    lemma_cuts_next(s, r, k);
    if k < r.len() - 1 {
        assert(is_top_comma(s, r[k].1 as int));
    }
}

pub fn is_space_byte(c: u8) -> (r: bool)
    ensures
        r == is_space(c),
{
    c == 32u8 || c == 9u8 || c == 10u8 || c == 13u8
}

/// Removes the whitespace around `s[lo..hi]`.
pub fn trim_range(s: &[u8], lo: usize, hi: usize) -> (r: (usize, usize))
    requires
        lo <= hi <= s@.len(),
    ensures
        trimmed(s@, lo as int, hi as int, r.0 as int, r.1 as int),
        r.0 == trim_lo(s@, lo as int, hi as int),
        r.1 == trim_hi(s@, r.0 as int, hi as int),
{
    let mut a = lo;
    while a < hi && is_space_byte(s[a])
        invariant
            lo <= a <= hi,
            hi <= s@.len(),
            forall|p: int| lo <= p < a ==> is_space(#[trigger] s@[p]),
            trim_lo(s@, lo as int, hi as int) == trim_lo(s@, a as int, hi as int),
        decreases hi - a,
    {
        a = a + 1;
    }
    let mut b = hi;
    while b > a && is_space_byte(s[b - 1])
        invariant
            lo <= a <= b <= hi,
            hi <= s@.len(),
            forall|p: int| lo <= p < a ==> is_space(#[trigger] s@[p]),
            forall|p: int| b <= p < hi ==> is_space(#[trigger] s@[p]),
            a < hi ==> !is_space(s@[a as int]),
            a == trim_lo(s@, lo as int, hi as int),
            trim_hi(s@, a as int, hi as int) == trim_hi(s@, a as int, b as int),
        decreases b - a,
    {
        b = b - 1;
    }
    (a, b)
}

/// Cuts `s` at its top-level commas; fails when its brackets do not balance.
pub fn split_top_level(s: &[u8]) -> (r: Result<Vec<(usize, usize)>, TxError>)
    ensures
        r is Ok <==> balanced(s@),
        r matches Ok(v) ==> cuts_at_top_commas(s@, v@),
        r matches Err(e) ==> e == TxError::ParseError,
{
    let n = s.len();
    let mut out: Vec<(usize, usize)> = Vec::new();
    let mut start: usize = 0;
    let mut d: usize = 0;
    let mut i: usize = 0;
    while i < n
        invariant
            n == s@.len(),
            i <= n,
            start <= i,
            d as int == depth(s@, i as int),
            d <= i,
            forall|j: int| 0 <= j <= i ==> #[trigger] depth(s@, j) >= 0,
            out@.len() >= 1 ==> out@[0].0 == 0,
            out@.len() == 0 ==> start == 0,
            out@.len() >= 1 ==> start == out@.last().1 + 1,
            forall|k: int| 0 <= k < out@.len() ==> #[trigger] out@[k].0 <= out@[k].1,
            forall|k: int|
                0 <= k < out@.len() ==> is_top_comma(s@, #[trigger] out@[k].1 as int),
            forall|k: int|
                0 <= k < out@.len() - 1 ==> #[trigger] out@[k + 1].0 == out@[k].1 + 1,
            forall|k: int, p: int|
                #![trigger out@[k], is_top_comma(s@, p)]
                0 <= k < out@.len() && out@[k].0 <= p < out@[k].1 ==> !is_top_comma(s@, p),
            forall|p: int| start <= p < i ==> !is_top_comma(s@, p),
        decreases n - i,
    {
        let c = s[i];
        if c == 44u8 && d == 0 {
            out.push((start, i));
            start = i + 1;
        } else if c == 60u8 || c == 91u8 {
            d = d + 1;
        } else if c == 62u8 || c == 93u8 {
            if d == 0 {
                assert(depth(s@, i as int + 1) < 0);
                return Err(TxError::ParseError);
            }
            d = d - 1;
        }
        i = i + 1;
    }
    if d != 0 {
        return Err(TxError::ParseError);
    }
    out.push((start, n));
    Ok(out)
}

} // verus!
