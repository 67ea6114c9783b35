use vstd::prelude::*;

use crate::error::TxError;
use crate::number::{
    all_digits, decimal_to_le, dec_value, le_value, lemma_le_value_bound, pow256,
};
use crate::types::{int_width, int_width_of, Literal, TypeTag};

verus! {

/// The unsigned LEB128 form of `n`, which prefixes every variable-length sequence.
pub open spec fn uleb128(n: nat) -> Seq<u8>
    decreases n,
{
    if n < 128 {
        seq![n as u8]
    } else {
        seq![(n % 128 + 128) as u8] + uleb128(n / 128)
    }
}

/// The `w` little-endian bytes whose value is `v` (unique, see `lemma_le_unique`).
pub open spec fn le_bytes(v: nat, w: nat) -> Seq<u8> {
    choose|b: Seq<u8>| b.len() == w && le_value(b) == v
}

pub proof fn lemma_le_unique(a: Seq<u8>, b: Seq<u8>)
    requires
        a.len() == b.len(),
        le_value(a) == le_value(b),
    ensures
        a == b,
    decreases a.len(),
{
    if a.len() > 0 {
        let p = pow256((a.len() - 1) as nat);
        lemma_le_value_bound(a.drop_last());
        lemma_le_value_bound(b.drop_last());
        let la = le_value(a.drop_last());
        let lb = le_value(b.drop_last());
        let x = a.last() as nat;
        let y = b.last() as nat;
        assert(x == y && la == lb) by (nonlinear_arith)
            requires
                la + p * x == lb + p * y,
                la < p,
                lb < p,
        ;
        lemma_le_unique(a.drop_last(), b.drop_last());
        assert(a =~= a.drop_last().push(a.last()));
        assert(b =~= b.drop_last().push(b.last()));
    } else {
        assert(a =~= b);
    }
}

/// The canonical encoding of a literal as a value of type `ty`.
pub open spec fn encode_spec(l: Literal, ty: TypeTag) -> Result<Seq<u8>, TxError>
    decreases l, 1int, 0int,
{
    match l {
        Literal::Bool(b) => match ty {
            TypeTag::Bool => Ok(seq![if b { 1u8 } else { 0u8 }]),
            _ => Err(TxError::ParseError),
        },
        Literal::Number { digits, suffix } => {
            let w = int_width(ty);
            if w == 0 || !all_digits(digits@) || digits@.len() == 0 {
                Err(TxError::ParseError)
            } else if suffix is Some && suffix->Some_0 as nat != w {
                Err(TxError::ParseError)
            } else if dec_value(digits@) >= pow256(w) {
                Err(TxError::OverflowError)
            } else {
                Ok(le_bytes(dec_value(digits@), w))
            }
        },
        Literal::Address(a) => match ty {
            TypeTag::Address => if a.bytes@.len() == 32 {
                Ok(a.bytes@)
            } else {
                Err(TxError::ParseError)
            },
            _ => Err(TxError::ParseError),
        },
        Literal::Bytes(b) => match ty {
            TypeTag::Vector(inner) => match *inner {
                TypeTag::U8 => Ok(uleb128(b@.len() as nat) + b@),
                _ => Err(TxError::ParseError),
            },
            _ => Err(TxError::ParseError),
        },
        Literal::Vector(v) => match ty {
            TypeTag::Vector(inner) => match encode_items(l, *inner, v@.len() as int) {
                Ok(body) => Ok(uleb128(v@.len() as nat) + body),
                Err(e) => Err(e),
            },
            _ => Err(TxError::ParseError),
        },
    }
}

/// The concatenated encodings of the first `n` elements of a vector literal,
/// or the first error among them.
pub open spec fn encode_items(l: Literal, inner: TypeTag, n: int) -> Result<Seq<u8>, TxError>
    decreases l, 0int, n,
{
    match l {
        Literal::Vector(v) => if n <= 0 || n > v@.len() {
            Ok(Seq::empty())
        } else {
            match encode_items(l, inner, n - 1) {
                Ok(prefix) => match encode_spec(v@[n - 1], inner) {
                    Ok(item) => Ok(prefix + item),
                    Err(e) => Err(e),
                },
                Err(e) => Err(e),
            }
        },
        _ => Ok(Seq::empty()),
    }
}

/// Appends the LEB128 form of `n` to `out`.
pub fn push_uleb128(out: &mut Vec<u8>, n: usize)
    ensures
        final(out)@ == old(out)@ + uleb128(n as nat),
{
    let ghost start = out@;
    let mut cur = n;
    while cur >= 128
        invariant
            out@ + uleb128(cur as nat) == start + uleb128(n as nat),
        decreases cur,
    {
        let ghost before = out@;
        out.push((cur % 128 + 128) as u8);
        assert(out@ + uleb128((cur / 128) as nat) =~= before + uleb128(cur as nat));
        cur = cur / 128;
    }
    let ghost before = out@;
    out.push(cur as u8);
    assert(out@ =~= before + uleb128(cur as nat));
}

pub fn append_bytes(out: &mut Vec<u8>, b: &Vec<u8>)
    ensures
        final(out)@ == old(out)@ + b@,
{
    let ghost start = out@;
    let mut i: usize = 0;
    while i < b.len()
        invariant
            i <= b@.len(),
            out@ == start + b@.subrange(0, i as int),
        decreases b@.len() - i,
    {
        out.push(b[i]);
        assert(out@ =~= start + b@.subrange(0, i as int + 1));
        i = i + 1;
    }
    assert(b@.subrange(0, b@.len() as int) =~= b@);
}

fn all_digits_exec(s: &Vec<u8>) -> (r: bool)
    ensures
        r == all_digits(s@),
{
    let mut i: usize = 0;
    while i < s.len()
        invariant
            i <= s@.len(),
            forall|j: int| 0 <= j < i ==> 48 <= #[trigger] s@[j] <= 57,
        decreases s@.len() - i,
    {
        if s[i] < 48 || s[i] > 57 {
            return false;
        }
        i = i + 1;
    }
    true
}

/// Encodes a literal as a value of the declared type `ty`, in the canonical
/// little-endian, length-prefixed layout.
pub fn encode_arg(l: &Literal, ty: &TypeTag) -> (r: Result<Vec<u8>, TxError>)
    ensures
        r matches Ok(b) ==> encode_spec(*l, *ty) == Ok::<Seq<u8>, TxError>(b@),
        r matches Err(e) ==> encode_spec(*l, *ty) == Err::<Seq<u8>, TxError>(e),
        r matches Err(e) ==> e == TxError::ParseError || e == TxError::OverflowError,
    decreases l, 1int,
{
    match l {
        Literal::Bool(b) => match ty {
            TypeTag::Bool => {
                let mut out: Vec<u8> = Vec::new();
                out.push(if *b { 1u8 } else { 0u8 });
                assert(out@ =~= seq![if *b { 1u8 } else { 0u8 }]);
                Ok(out)
            },
            _ => Err(TxError::ParseError),
        },
        Literal::Number { digits, suffix } => {
            let w = int_width_of(ty);
            if w == 0 || !all_digits_exec(digits) || digits.len() == 0 {
                return Err(TxError::ParseError);
            }
            match suffix {
                Some(sw) => {
                    if *sw != w {
                        return Err(TxError::ParseError);
                    }
                },
                None => {},
            }
            match decimal_to_le(digits.as_slice(), w) {
                Some(b) => {
                    proof {
                        let c = le_bytes(dec_value(digits@), w as nat);
                        assert(b@.len() == w && le_value(b@) == dec_value(digits@));
                        lemma_le_unique(b@, c);
                    }
                    Ok(b)
                },
                None => Err(TxError::OverflowError),
            }
        },
        Literal::Address(a) => match ty {
            TypeTag::Address => {
                if a.bytes.len() != 32 {
                    return Err(TxError::ParseError);
                }
                let mut out: Vec<u8> = Vec::new();
                append_bytes(&mut out, &a.bytes);
                assert(out@ =~= a.bytes@);
                Ok(out)
            },
            _ => Err(TxError::ParseError),
        },
        Literal::Bytes(b) => match ty {
            TypeTag::Vector(inner) => match &**inner {
                TypeTag::U8 => {
                    let mut out: Vec<u8> = Vec::new();
                    push_uleb128(&mut out, b.len());
                    append_bytes(&mut out, b);
                    assert(out@ =~= uleb128(b@.len() as nat) + b@);
                    Ok(out)
                },
                _ => Err(TxError::ParseError),
            },
            _ => Err(TxError::ParseError),
        },
        Literal::Vector(v) => match ty {
            TypeTag::Vector(inner) => {
                let mut body: Vec<u8> = Vec::new();
                let mut i: usize = 0;
                while i < v.len()
                    invariant
                        i <= v@.len(),
                        *l == Literal::Vector(*v),
                        *ty == TypeTag::Vector(*inner),
                        encode_items(*l, **inner, i as int) == Ok::<Seq<u8>, TxError>(body@),
                    decreases v@.len() - i,
                {
                    match encode_arg(&v[i], &**inner) {
                        Ok(item) => {
                            append_bytes(&mut body, &item);
                        },
                        Err(e) => {
                            assert(encode_items(*l, **inner, i as int + 1) == Err::<Seq<u8>, TxError>(e));
                            let ghost k = v@.len() as int;
                            proof {
                                lemma_items_err_extends(*l, **inner, i as int + 1, k, e);
                                assert(encode_items(*l, **inner, k) == Err::<Seq<u8>, TxError>(e));
                            }
                            return Err(e);
                        },
                    }
                    i = i + 1;
                }
                let mut out: Vec<u8> = Vec::new();
                push_uleb128(&mut out, v.len());
                append_bytes(&mut out, &body);
                Ok(out)
            },
            _ => Err(TxError::ParseError),
        },
    }
}

proof fn lemma_items_err_extends(l: Literal, inner: TypeTag, i: int, k: int, e: TxError)
    requires
        l is Vector,
        1 <= i <= k <= l->Vector_0@.len(),
        encode_items(l, inner, i) == Err::<Seq<u8>, TxError>(e),
    ensures
        encode_items(l, inner, k) == Err::<Seq<u8>, TxError>(e),
    decreases k - i,
{
    if i < k {
        lemma_items_err_extends(l, inner, i, k - 1, e);
    }
}

} // verus!
