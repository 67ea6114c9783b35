use vstd::prelude::*;

use crate::error::TxError;
use crate::hex::address_bytes;
use crate::ident::{copy_range, is_function_id_text, parse_function_id, split3};
use crate::literal::all_space;
use crate::split::{
    balanced, cut_list, is_space, lemma_cut_list_at, lemma_cut_list_intro, next_cut, split_top_level, trim_hi,
    trim_lo, trim_range,
};
use crate::types::TypeTag;

verus! {

/// The primitive type that a keyword names.
pub open spec fn keyword_tag(t: Seq<u8>) -> Option<TypeTag> {
    if t == seq![98u8, 111u8, 111u8, 108u8] {
        Some(TypeTag::Bool)
    } else if t == seq![117u8, 56u8] {
        Some(TypeTag::U8)
    } else if t == seq![117u8, 49u8, 54u8] {
        Some(TypeTag::U16)
    } else if t == seq![117u8, 51u8, 50u8] {
        Some(TypeTag::U32)
    } else if t == seq![117u8, 54u8, 52u8] {
        Some(TypeTag::U64)
    } else if t == seq![117u8, 49u8, 50u8, 56u8] {
        Some(TypeTag::U128)
    } else if t == seq![117u8, 50u8, 53u8, 54u8] {
        Some(TypeTag::U256)
    } else if t == seq![97u8, 100u8, 100u8, 114u8, 101u8, 115u8, 115u8] {
        Some(TypeTag::Address)
    } else if t == seq![115u8, 105u8, 103u8, 110u8, 101u8, 114u8] {
        Some(TypeTag::Signer)
    } else {
        None
    }
}

/// `vector<` opens the text and `>` closes it.
pub open spec fn is_vector_type_text(t: Seq<u8>) -> bool {
    &&& t.len() >= 8
    &&& t.subrange(0, 7) == seq![118u8, 101u8, 99u8, 116u8, 111u8, 114u8, 60u8]
    &&& t.last() == 62u8
}

/// The position of the first `<` at or after `i`, or the length.
pub open spec fn first_angle_from(t: Seq<u8>, i: int) -> int
    decreases t.len() - i,
{
    if i < 0 || i >= t.len() {
        t.len() as int
    } else if t[i] == 60u8 {
        i
    } else {
        first_angle_from(t, i + 1)
    }
}

/// The trimmed text `t` is a well-formed type.
pub open spec fn type_text_ok(t: Seq<u8>) -> bool
    decreases t.len(), 0int, 0int,
{
    if keyword_tag(t) is Some {
        true
    } else if is_vector_type_text(t) {
        let a = trim_lo(t, 7, t.len() - 1);
        let b = trim_hi(t, a, t.len() - 1);
        7 <= a < b <= t.len() - 1 && type_text_ok(t.subrange(a, b))
    } else {
        let p = first_angle_from(t, 0);
        &&& 0 <= p <= t.len()
        &&& is_function_id_text(t.subrange(0, p))
        &&& p < t.len() ==> p + 1 < t.len() && t.last() == 62u8 && !all_space(
            t.subrange(p + 1, t.len() - 1),
        ) && type_list_ok(t.subrange(p + 1, t.len() - 1))
    }
}

/// The pieces of `s` from `from` on are non-empty, well-formed types.
pub open spec fn type_items_ok(s: Seq<u8>, from: int) -> bool
    decreases s.len(), 1int, s.len() - from,
{
    let e = next_cut(s, from);
    let a = trim_lo(s, from, e);
    let b = trim_hi(s, a, e);
    &&& 0 <= from <= e <= s.len()
    &&& 0 <= a < b <= s.len()
    &&& type_text_ok(s.subrange(a, b))
    &&& e < s.len() ==> type_items_ok(s, e + 1)
}

/// `s` is a well-formed comma-separated list of types (whitespace alone is
/// the empty list).
pub open spec fn type_list_ok(s: Seq<u8>) -> bool
    decreases s.len(), 2int, 0int,
{
    all_space(s) || (balanced(s) && type_items_ok(s, 0))
}

/// The trimmed text `t` reads as the type `tag`, its parts read recursively.
pub open spec fn type_reads_as(t: Seq<u8>, tag: TypeTag) -> bool
    decreases t.len(), 0int, 0int,
{
    if keyword_tag(t) is Some {
        tag == keyword_tag(t)->Some_0
    } else if is_vector_type_text(t) {
        let a = trim_lo(t, 7, t.len() - 1);
        let b = trim_hi(t, a, t.len() - 1);
        7 <= a < b <= t.len() - 1 && (tag matches TypeTag::Vector(inner) && type_reads_as(
            t.subrange(a, b),
            *inner,
        ))
    } else {
        let p = first_angle_from(t, 0);
        let head = t.subrange(0, p);
        &&& 0 <= p <= t.len()
        &&& is_function_id_text(head)
        &&& tag matches TypeTag::Struct { address, module, name, type_params }
        &&& address.bytes@ == address_bytes(split3(head)->Some_0.0)
        &&& module@ == split3(head)->Some_0.1
        &&& name@ == split3(head)->Some_0.2
        &&& p == t.len() ==> type_params@.len() == 0
        &&& p < t.len() ==> p + 1 < t.len() && type_list_reads_as(
            t.subrange(p + 1, t.len() - 1),
            type_params@,
        )
    }
}

/// The pieces of `s` from `from` on read as `v`, one type per piece.
pub open spec fn type_items_read_as(s: Seq<u8>, from: int, v: Seq<TypeTag>) -> bool
    decreases s.len(), 1int, s.len() - from,
{
    let e = next_cut(s, from);
    let a = trim_lo(s, from, e);
    let b = trim_hi(s, a, e);
    &&& 0 <= from <= e <= s.len()
    &&& 0 <= a < b <= s.len()
    &&& v.len() > 0
    &&& type_reads_as(s.subrange(a, b), v[0])
    &&& if e < s.len() {
        type_items_read_as(s, e + 1, v.drop_first())
    } else {
        v.len() == 1
    }
}

/// `v` is what the comma-separated types in `s` read as.
pub open spec fn type_list_reads_as(s: Seq<u8>, v: Seq<TypeTag>) -> bool
    decreases s.len(), 2int, 0int,
{
    if all_space(s) {
        v.len() == 0
    } else {
        balanced(s) && type_items_read_as(s, 0, v)
    }
}

fn keyword_tag_of(t: &[u8]) -> (r: Option<TypeTag>)
    ensures
        r == keyword_tag(t@),
{
    let n = t.len();
    if n == 2 && t[0] == 117u8 && t[1] == 56u8 {
        assert(t@ =~= seq![117u8, 56u8]);
        return Some(TypeTag::U8);
    }
    if n == 3 && t[0] == 117u8 {
        if t[1] == 49u8 && t[2] == 54u8 {
            assert(t@ =~= seq![117u8, 49u8, 54u8]);
            return Some(TypeTag::U16);
        }
        if t[1] == 51u8 && t[2] == 50u8 {
            assert(t@ =~= seq![117u8, 51u8, 50u8]);
            return Some(TypeTag::U32);
        }
        if t[1] == 54u8 && t[2] == 52u8 {
            assert(t@ =~= seq![117u8, 54u8, 52u8]);
            return Some(TypeTag::U64);
        }
        return None;
    }
    if n == 4 {
        if t[0] == 117u8 && t[1] == 49u8 && t[2] == 50u8 && t[3] == 56u8 {
            assert(t@ =~= seq![117u8, 49u8, 50u8, 56u8]);
            return Some(TypeTag::U128);
        }
        if t[0] == 117u8 && t[1] == 50u8 && t[2] == 53u8 && t[3] == 54u8 {
            assert(t@ =~= seq![117u8, 50u8, 53u8, 54u8]);
            return Some(TypeTag::U256);
        }
        if t[0] == 98u8 && t[1] == 111u8 && t[2] == 111u8 && t[3] == 108u8 {
            assert(t@ =~= seq![98u8, 111u8, 111u8, 108u8]);
            return Some(TypeTag::Bool);
        }
        return None;
    }
    if n == 7 && t[0] == 97u8 && t[1] == 100u8 && t[2] == 100u8 && t[3] == 114u8 && t[4] == 101u8
        && t[5] == 115u8 && t[6] == 115u8 {
        assert(t@ =~= seq![97u8, 100u8, 100u8, 114u8, 101u8, 115u8, 115u8]);
        return Some(TypeTag::Address);
    }
    if n == 6 && t[0] == 115u8 && t[1] == 105u8 && t[2] == 103u8 && t[3] == 110u8 && t[4] == 101u8
        && t[5] == 114u8 {
        assert(t@ =~= seq![115u8, 105u8, 103u8, 110u8, 101u8, 114u8]);
        return Some(TypeTag::Signer);
    }
    None
}

fn starts_vector(t: &[u8]) -> (r: bool)
    ensures
        r == is_vector_type_text(t@),
{
    let n = t.len();
    if n < 8 || t[n - 1] != 62u8 {
        return false;
    }
    let ok = t[0] == 118u8 && t[1] == 101u8 && t[2] == 99u8 && t[3] == 116u8 && t[4] == 111u8
        && t[5] == 114u8 && t[6] == 60u8;
    if ok {
        assert(t@.subrange(0, 7) =~= seq![118u8, 101u8, 99u8, 116u8, 111u8, 114u8, 60u8]);
    } else {
        assert(t@.subrange(0, 7)[0] == t@[0]);
        assert(t@.subrange(0, 7)[6] == t@[6]);
    }
    ok
}

/// Position of the first `<`, or the length when there is none.
fn first_angle(t: &[u8]) -> (r: usize)
    ensures
        r <= t@.len(),
        r < t@.len() ==> t@[r as int] == 60u8,
        forall|j: int| 0 <= j < r ==> t@[j] != 60u8,
        r == first_angle_from(t@, 0),
{
    let mut i: usize = 0;
    while i < t.len() && t[i] != 60u8
        invariant
            i <= t@.len(),
            forall|j: int| 0 <= j < i ==> t@[j] != 60u8,
            first_angle_from(t@, 0) == first_angle_from(t@, i as int),
        decreases t@.len() - i,
    {
        i = i + 1;
    }
    i
}

/// Parses one trimmed type: a primitive keyword, `vector<T>`, or
/// `<address>::<module>::<name>` with optional `<T1, ...>` parameters.
#[verifier::rlimit(60)]
pub fn parse_type_tag(t: &[u8]) -> (r: Result<TypeTag, TxError>)
    ensures
        r is Ok <==> type_text_ok(t@),
        r matches Ok(tag) ==> type_reads_as(t@, tag),
        r matches Err(e) ==> e == TxError::ParseError,
    decreases t@.len(), 0int, 0int,
{
    if let Some(k) = keyword_tag_of(t) {
        return Ok(k);
    }
    let n = t.len();
    if starts_vector(t) {
        let (a, b) = trim_range(t, 7, n - 1);
        if a == b {
            return Err(TxError::ParseError);
        }
        let inner = copy_range(t, a, b);
        return match parse_type_tag(inner.as_slice()) {
            Ok(it) => Ok(TypeTag::Vector(Box::new(it))),
            Err(e) => Err(e),
        };
    }
    let p = first_angle(t);
    let head = copy_range(t, 0, p);
    let fid = match parse_function_id(head.as_slice()) {
        Ok(f) => f,
        Err(_) => return Err(TxError::ParseError),
    };
    let mut type_params: Vec<TypeTag> = Vec::new();
    if p < n {
        if p + 1 >= n || t[n - 1] != 62u8 {
            return Err(TxError::ParseError);
        }
        let inner = copy_range(t, p + 1, n - 1);
        type_params = match parse_type_args(inner.as_slice()) {
            Ok(v) => {
                if v.len() == 0 {
                    return Err(TxError::ParseError);
                }
                v
            },
            Err(e) => return Err(e),
        };
    }
    Ok(TypeTag::Struct { address: fid.address, module: fid.module, name: fid.function, type_params })
}

/// Parses comma-separated types; text of whitespace alone holds none.
pub fn parse_type_args(s: &[u8]) -> (r: Result<Vec<TypeTag>, TxError>)
    ensures
        all_space(s@) ==> (r matches Ok(v) && v@.len() == 0),
        r is Ok <==> type_list_ok(s@),
        r matches Ok(v) ==> type_list_reads_as(s@, v@),
        r matches Ok(v) ==> (v@.len() == 0 <==> all_space(s@)),
        r matches Err(e) ==> e == TxError::ParseError,
    decreases s@.len(), 2int, 0int,
{
    let whole = trim_range(s, 0, s.len());
    if whole.0 == whole.1 {
        assert(all_space(s@)) by {
            assert forall|p: int| 0 <= p < s@.len() implies is_space(#[trigger] s@[p]) by {
                if p >= whole.0 {
                    assert(whole.1 <= p);
                }
            }
        }
        return Ok(Vec::new());
    }
    assert(!is_space(s@[whole.0 as int]));
    assert(!all_space(s@));
    let cuts = match split_top_level(s) {
        Ok(c) => c,
        Err(e) => return Err(e),
    };
    proof {
        lemma_cut_list_intro(s@, cuts@);
        lemma_cut_list_at(s@, cuts@, 0);
    }
    parse_type_items(s, &cuts, 0)
}

/// Parses the type pieces of `s` from the `k`-th cut on.
#[verifier::rlimit(60)]
fn parse_type_items(s: &[u8], cuts: &Vec<(usize, usize)>, k: usize) -> (r: Result<Vec<TypeTag>, TxError>)
    requires
        cut_list(s@, cuts@),
        k < cuts@.len(),
    ensures
        r is Ok <==> type_items_ok(s@, cuts@[k as int].0 as int),
        r matches Ok(v) ==> type_items_read_as(s@, cuts@[k as int].0 as int, v@) && v@.len() > 0,
        r matches Err(e) ==> e == TxError::ParseError,
    decreases s@.len(), 1int, cuts@.len() - k,
{
    let (lo, hi) = cuts[k];
    proof {
        lemma_cut_list_at(s@, cuts@, k as int);
    }
    let ghost e = next_cut(s@, lo as int);
    assert(e == hi);
    let (a, b) = trim_range(s, lo, hi);
    let ghost last = k + 1 == cuts@.len();
    assert(last ==> hi == s@.len());
    assert(!last ==> cuts@[k as int + 1].0 == hi + 1 && hi < s@.len());
    if a == b {
        assert(!type_items_ok(s@, lo as int));
        return Err(TxError::ParseError);
    }
    let piece = copy_range(s, a, b);
    assert(piece@ == s@.subrange(a as int, b as int));
    let t = match parse_type_tag(piece.as_slice()) {
        Ok(t) => t,
        Err(e) => {
            assert(!type_items_ok(s@, lo as int));
            return Err(e);
        },
    };
    if k == cuts.len() - 1 {
        let mut v: Vec<TypeTag> = Vec::new();
        v.push(t);
        assert(v@[0] == t);
        assert(type_items_ok(s@, lo as int));
        assert(type_items_read_as(s@, lo as int, v@));
        return Ok(v);
    }
    let mut rest = match parse_type_items(s, cuts, k + 1) {
        Ok(v) => v,
        Err(e) => {
            assert(!type_items_ok(s@, lo as int));
            return Err(e);
        },
    };
    let ghost rv = rest@;
    rest.insert(0, t);
    assert(rest@.drop_first() =~= rv);
    assert(rest@[0] == t);
    assert(type_items_ok(s@, lo as int));
    assert(type_items_read_as(s@, lo as int, rest@));
    Ok(rest)
}

} // verus!
