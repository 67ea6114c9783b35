use vstd::prelude::*;

use crate::encode::uleb128;
use crate::error::TxError;
use crate::ident::copy_range;
use crate::types::{int_width, int_width_of, TypeTag};

verus! {

/// A value returned by a view call.
#[derive(Debug, PartialEq, Eq)]
pub enum MoveValue {
    Bool(bool),
    /// An unsigned integer as its little-endian bytes, as many as its width.
    Int(Vec<u8>),
    Address(Vec<u8>),
    Vector(Vec<MoveValue>),
}

/// The canonical encoding of `v` as a value of type `ty`, or `None` when `v`
/// is no value of that type.
pub open spec fn value_bcs(v: MoveValue, ty: TypeTag) -> Option<Seq<u8>>
    decreases v, 1int, 0int,
{
    match v {
        MoveValue::Bool(b) => if ty is Bool {
            Some(seq![if b { 1u8 } else { 0u8 }])
        } else {
            None
        },
        MoveValue::Int(b) => if int_width(ty) > 0 && b@.len() == int_width(ty) {
            Some(b@)
        } else {
            None
        },
        MoveValue::Address(a) => if ty is Address && a@.len() == 32 {
            Some(a@)
        } else {
            None
        },
        MoveValue::Vector(items) => match ty {
            TypeTag::Vector(inner) => match value_items_bcs(v, *inner, items@.len() as int) {
                Some(body) => Some(uleb128(items@.len() as nat) + body),
                None => None,
            },
            _ => None,
        },
    }
}

/// The concatenated encodings of the first `n` items of a vector value.
pub open spec fn value_items_bcs(v: MoveValue, inner: TypeTag, n: int) -> Option<Seq<u8>>
    decreases v, 0int, n,
{
    match v {
        MoveValue::Vector(items) => if n <= 0 || n > items@.len() {
            Some(Seq::empty())
        } else {
            match value_items_bcs(v, inner, n - 1) {
                Some(prefix) => match value_bcs(items@[n - 1], inner) {
                    Some(item) => Some(prefix + item),
                    None => None,
                },
                None => None,
            }
        },
        _ => Some(Seq::empty()),
    }
}

/// The concatenated encodings of the first `n` values against their types.
pub open spec fn values_bcs(vs: Seq<MoveValue>, tys: Seq<TypeTag>, n: int) -> Option<Seq<u8>>
    decreases n,
{
    if n <= 0 {
        Some(Seq::empty())
    } else {
        match values_bcs(vs, tys, n - 1) {
            Some(prefix) => match value_bcs(vs[n - 1], tys[n - 1]) {
                Some(item) => Some(prefix + item),
                None => None,
            },
            None => None,
        }
    }
}

/// Reads a canonical LEB128 length, below 2^32, that starts at `pos`.
pub fn read_uleb128(b: &[u8], pos: usize) -> (r: Result<(usize, usize), TxError>)
    ensures
        r matches Ok((n, end)) ==> pos < end <= b@.len() && n < 0x1_0000_0000 && b@.subrange(
            pos as int,
            end as int,
        ) == uleb128(n as nat),
        r matches Err(e) ==> e == TxError::DecodeError,
        forall|n: nat, end: int|
            #![trigger uleb128(n), b@.subrange(pos as int, end)]
            pos < end <= b@.len() && n < 0x1_0000_0000 && b@.subrange(pos as int, end) == uleb128(n)
                ==> r == Ok::<(usize, usize), TxError>((n as usize, end as usize)),
    decreases b@.len() - pos,
{
    if pos >= b.len() {
        return Err(TxError::DecodeError);
    }
    let x = b[pos];
    if x < 128 {
        assert(b@.subrange(pos as int, pos + 1) =~= seq![x]);
        assert forall|n: nat, end: int|
            #![trigger uleb128(n), b@.subrange(pos as int, end)]
            pos < end <= b@.len() && n < 0x1_0000_0000 && b@.subrange(pos as int, end) == uleb128(n)
            implies n == x as nat && end == pos + 1 by {
            assert(b@.subrange(pos as int, end)[0] == x);
            if n >= 128 {
                assert(uleb128(n)[0] == (n % 128 + 128) as u8);
            }
            assert(uleb128(n).len() == 1);
        }
        return Ok((x as usize, pos + 1));
    }
    proof {
        assert forall|n: nat, end: int|
            #![trigger uleb128(n), b@.subrange(pos as int, end)]
            pos < end <= b@.len() && n < 0x1_0000_0000 && b@.subrange(pos as int, end) == uleb128(n)
            implies n >= 128 && b@.subrange(pos + 1, end) == uleb128(n / 128) && x == n % 128 + 128 && pos + 1 < end by {
            assert(b@.subrange(pos as int, end)[0] == x);
            if n < 128 {
                assert(uleb128(n) == seq![n as u8]);
            }
            assert(uleb128(n) == seq![(n % 128 + 128) as u8] + uleb128(n / 128));
            assert(b@.subrange(pos + 1, end) =~= b@.subrange(pos as int, end).drop_first());
            assert(uleb128(n).drop_first() =~= uleb128(n / 128));
        }
    }
    let (m, end) = match read_uleb128(b, pos + 1) {
        Ok(p) => p,
        Err(e) => return Err(e),
    };
    if m == 0 || m >= 0x200_0000 {
        proof {
            assert forall|n: nat, e2: int|
                #![trigger uleb128(n), b@.subrange(pos as int, e2)]
                pos < e2 <= b@.len() && n < 0x1_0000_0000 && b@.subrange(pos as int, e2) == uleb128(n)
                implies false by {
                assert(b@.subrange(pos + 1, e2) == uleb128(n / 128));
                assert(n / 128 < 0x1_0000_0000);
            }
        }
        return Err(TxError::DecodeError);
    }
    let n: usize = (x - 128) as usize + 128 * m;
    assert(n / 128 == m && n % 128 == x - 128);
    assert(b@.subrange(pos as int, end as int) =~= seq![x] + b@.subrange(pos + 1, end as int));
    Ok((n, end))
}

/// Reads one value of type `ty` that starts at `pos`; returns it and where it ends.
pub fn decode_value(b: &[u8], pos: usize, ty: &TypeTag) -> (r: Result<(MoveValue, usize), TxError>)
    requires
        pos <= b@.len(),
    ensures
        r matches Ok((v, end)) ==> pos <= end <= b@.len() && value_bcs(v, *ty) == Some(
            b@.subrange(pos as int, end as int),
        ),
        r matches Err(e) ==> e == TxError::DecodeError,
        int_width(*ty) > 0 ==> (r is Ok <==> b@.len() - pos >= int_width(*ty)),
        *ty is Bool ==> (r is Ok <==> pos < b@.len() && b@[pos as int] <= 1),
        *ty is Address ==> (r is Ok <==> b@.len() - pos >= 32),
        *ty is Signer || *ty is Struct ==> r is Err,
    decreases b@.len() - pos, 0int,
{
    let w = int_width_of(ty);
    if w > 0 {
        if b.len() - pos < w {
            return Err(TxError::DecodeError);
        }
        let bytes = copy_range(b, pos, pos + w);
        return Ok((MoveValue::Int(bytes), pos + w));
    }
    match ty {
        TypeTag::Bool => {
            if pos >= b.len() || b[pos] > 1 {
                return Err(TxError::DecodeError);
            }
            let v = b[pos] == 1;
            assert(b@.subrange(pos as int, pos + 1) =~= seq![if v { 1u8 } else { 0u8 }]);
            Ok((MoveValue::Bool(v), pos + 1))
        },
        TypeTag::Address => {
            if b.len() - pos < 32 {
                return Err(TxError::DecodeError);
            }
            let bytes = copy_range(b, pos, pos + 32);
            Ok((MoveValue::Address(bytes), pos + 32))
        },
        TypeTag::Vector(inner) => {
            let (n, start) = match read_uleb128(b, pos) {
                Ok(p) => p,
                Err(e) => return Err(e),
            };
            let mut items: Vec<MoveValue> = Vec::new();
            let mut cur = start;
            let mut i: usize = 0;
            while i < n
                invariant
                    pos < start <= cur <= b@.len(),
                    *ty == TypeTag::Vector(*inner),
                    i <= n,
                    items@.len() == i,
                    value_items_bcs(MoveValue::Vector(items), **inner, i as int) == Some(
                        b@.subrange(start as int, cur as int),
                    ),
                decreases n - i,
            {
                let ghost before = items;
                let (v, next) = match decode_value(b, cur, &**inner) {
                    Ok(p) => p,
                    Err(e) => return Err(e),
                };
                items.push(v);
                proof {
                    lemma_items_prefix(before, items, **inner, i as int);
                    assert(b@.subrange(start as int, next as int) =~= b@.subrange(start as int, cur as int)
                        + b@.subrange(cur as int, next as int));
                }
                cur = next;
                i = i + 1;
            }
            assert(b@.subrange(pos as int, cur as int) =~= b@.subrange(pos as int, start as int)
                + b@.subrange(start as int, cur as int));
            Ok((MoveValue::Vector(items), cur))
        },
        _ => Err(TxError::DecodeError),
    }
}

/// Pushing an item keeps the encodings of the items before it.
proof fn lemma_items_prefix(before: Vec<MoveValue>, after: Vec<MoveValue>, inner: TypeTag, i: int)
    requires
        0 <= i,
        before@.len() == i,
        after@ == before@.push(after@[i]),
    ensures
        value_items_bcs(MoveValue::Vector(after), inner, i) == value_items_bcs(MoveValue::Vector(before), inner, i),
        value_items_bcs(MoveValue::Vector(after), inner, i + 1) == match value_items_bcs(MoveValue::Vector(before), inner, i) {
            Some(prefix) => match value_bcs(after@[i], inner) {
                Some(item) => Some(prefix + item),
                None => None,
            },
            None => None,
        },
{
    lemma_items_prefix_same(before, after, inner, i);
}

proof fn lemma_items_prefix_same(before: Vec<MoveValue>, after: Vec<MoveValue>, inner: TypeTag, k: int)
    requires
        0 <= k <= before@.len(),
        before@.len() < after@.len(),
        forall|j: int| 0 <= j < before@.len() ==> before@[j] == after@[j],
    ensures
        value_items_bcs(MoveValue::Vector(after), inner, k) == value_items_bcs(MoveValue::Vector(before), inner, k),
    decreases k,
{
    if k > 0 {
        lemma_items_prefix_same(before, after, inner, k - 1);
    }
}

/// Decodes the bytes a view call returned into one value per declared return
/// type; every byte must be used.
pub fn decode_values(b: &[u8], tys: &Vec<TypeTag>) -> (r: Result<Vec<MoveValue>, TxError>)
    ensures
        r matches Ok(vs) ==> vs@.len() == tys@.len() && values_bcs(vs@, tys@, tys@.len() as int) == Some(b@),
        r matches Err(e) ==> e == TxError::DecodeError,
{
    let mut out: Vec<MoveValue> = Vec::new();
    let mut cur: usize = 0;
    let mut i: usize = 0;
    while i < tys.len()
        invariant
            cur <= b@.len(),
            i <= tys@.len(),
            out@.len() == i,
            values_bcs(out@, tys@, i as int) == Some(b@.subrange(0, cur as int)),
        decreases tys@.len() - i,
    {
        let (v, next) = match decode_value(b, cur, &tys[i]) {
            Ok(p) => p,
            Err(e) => return Err(e),
        };
        let ghost before = out@;
        out.push(v);
        proof {
            lemma_values_prefix(before, out@, tys@, i as int);
            assert(b@.subrange(0, next as int) =~= b@.subrange(0, cur as int) + b@.subrange(cur as int, next as int));
        }
        cur = next;
        i = i + 1;
    }
    if cur != b.len() {
        return Err(TxError::DecodeError);
    }
    assert(b@.subrange(0, cur as int) =~= b@);
    Ok(out)
}

proof fn lemma_values_prefix(before: Seq<MoveValue>, after: Seq<MoveValue>, tys: Seq<TypeTag>, k: int)
    requires
        0 <= k <= before.len(),
        before.len() < after.len(),
        forall|j: int| 0 <= j < before.len() ==> before[j] == after[j],
    ensures
        values_bcs(after, tys, k) == values_bcs(before, tys, k),
    decreases k,
{
    if k > 0 {
        lemma_values_prefix(before, after, tys, k - 1);
    }
}

} // verus!
