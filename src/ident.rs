use vstd::prelude::*;

use crate::error::TxError;
use crate::hex::{address_bytes, is_address_text, parse_address, AccountAddress};

verus! {

pub open spec fn is_ident_start(c: u8) -> bool {
    (97 <= c <= 122) || (65 <= c <= 90) || c == 95
}

pub open spec fn is_ident_char(c: u8) -> bool {
    is_ident_start(c) || (48 <= c <= 57)
}

/// A Move identifier: a letter or `_`, then letters, digits and `_`.
pub open spec fn is_identifier(s: Seq<u8>) -> bool {
    &&& s.len() > 0
    &&& is_ident_start(s[0])
    &&& forall|i: int| 1 <= i < s.len() ==> is_ident_char(#[trigger] s[i])
}

pub open spec fn is_sep_at(s: Seq<u8>, i: int) -> bool {
    0 <= i && i + 1 < s.len() && s[i] == 58u8 && s[i + 1] == 58u8
}

/// The first position at or after `from` where `::` starts, or -1.
pub open spec fn first_sep(s: Seq<u8>, from: int) -> int
    decreases s.len() - from,
{
    if from < 0 || from + 1 >= s.len() {
        -1
    } else if is_sep_at(s, from) {
        from
    } else {
        first_sep(s, from + 1)
    }
}

/// The three `::`-separated segments of `s`, when there are exactly three.
pub open spec fn split3(s: Seq<u8>) -> Option<(Seq<u8>, Seq<u8>, Seq<u8>)> {
    let i = first_sep(s, 0);
    let j = first_sep(s, i + 2);
    if i < 0 || j < 0 || first_sep(s, j + 2) >= 0 {
        None
    } else {
        Some((s.subrange(0, i), s.subrange(i + 2, j), s.subrange(j + 2, s.len() as int)))
    }
}

pub open spec fn is_function_id_text(s: Seq<u8>) -> bool {
    match split3(s) {
        Some((a, m, f)) => is_address_text(a) && is_identifier(m) && is_identifier(f),
        None => false,
    }
}

/// `<address>::<module>::<function>`.
#[derive(Debug, Clone)]
pub struct FunctionId {
    pub address: AccountAddress,
    pub module: Vec<u8>,
    pub function: Vec<u8>,
}

/// Finds the first `::` at or after `from`.
fn find_sep(s: &[u8], from: usize) -> (r: Option<usize>)
    ensures
        r matches Some(i) ==> i as int == first_sep(s@, from as int) && from <= i && i + 1 < s@.len(),
        r is None ==> first_sep(s@, from as int) == -1,
{
    if s.len() < 2 {
        return None;
    }
    let mut i = from;
    while i < s.len() - 1
        invariant
            from <= i,
            s@.len() >= 2,
            first_sep(s@, from as int) == first_sep(s@, i as int),
        decreases s.len() - i,
    {
        if s[i] == 58u8 && s[i + 1] == 58u8 {
            return Some(i);
        }
        i = i + 1;
    }
    None
}

pub fn is_identifier_bytes(s: &[u8]) -> (r: bool)
    ensures
        r == is_identifier(s@),
{
    if s.len() == 0 {
        return false;
    }
    let c = s[0];
    if !((97 <= c && c <= 122) || (65 <= c && c <= 90) || c == 95) {
        return false;
    }
    let mut i: usize = 1;
    while i < s.len()
        invariant
            1 <= i <= s@.len(),
            forall|j: int| 1 <= j < i ==> is_ident_char(#[trigger] s@[j]),
        decreases s.len() - i,
    {
        let c = s[i];
        if !((97 <= c && c <= 122) || (65 <= c && c <= 90) || c == 95 || (48 <= c && c <= 57)) {
            return false;
        }
        i = i + 1;
    }
    true
}

pub fn copy_range(s: &[u8], lo: usize, hi: usize) -> (r: Vec<u8>)
    requires
        lo <= hi <= s@.len(),
    ensures
        r@ == s@.subrange(lo as int, hi as int),
{
    let mut r: Vec<u8> = Vec::new();
    let mut i = lo;
    while i < hi
        invariant
            lo <= i <= hi,
            hi <= s@.len(),
            r@ == s@.subrange(lo as int, i as int),
        decreases hi - i,
    {
        r.push(s[i]);
        assert(r@ =~= s@.subrange(lo as int, i as int + 1));
        i = i + 1;
    }
    r
}

/// Splits and checks a function identifier of the form
/// `<address>::<module>::<function>`.
pub fn parse_function_id(s: &[u8]) -> (r: Result<FunctionId, TxError>)
    ensures
        r is Ok <==> is_function_id_text(s@),
        r matches Err(e) ==> e == TxError::InvalidIdentifier,
        r matches Ok(f) ==> ({
            let (a, m, n) = split3(s@)->Some_0;
            &&& f.address.wf()
            &&& f.address.bytes@ == address_bytes(a)
            &&& f.module@ == m
            &&& f.function@ == n
        }),
{
    let n = s.len();
    let i = match find_sep(s, 0) {
        Some(i) => i,
        None => return Err(TxError::InvalidIdentifier),
    };
    assert(i + 1 < n);
    let j = match find_sep(s, i + 2) {
        Some(j) => j,
        None => return Err(TxError::InvalidIdentifier),
    };
    assert(j + 1 < n);
    if find_sep(s, j + 2).is_some() {
        return Err(TxError::InvalidIdentifier);
    }
    let a = copy_range(s, 0, i);
    let m = copy_range(s, i + 2, j);
    let f = copy_range(s, j + 2, s.len());
    let address = match parse_address(a.as_slice()) {
        Ok(addr) => addr,
        Err(_) => return Err(TxError::InvalidIdentifier),
    };
    if !is_identifier_bytes(m.as_slice()) || !is_identifier_bytes(f.as_slice()) {
        return Err(TxError::InvalidIdentifier);
    }
    Ok(FunctionId { address, module: m, function: f })
}

} // verus!
