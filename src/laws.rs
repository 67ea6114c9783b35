use vstd::prelude::*;

use vstd::arithmetic::div_mod::{lemma_fundamental_div_mod, lemma_mod_pos_bound};

use crate::encode::{encode_spec, le_bytes};
use crate::error::TxError;
use crate::literal::{is_vector_text, number_parts, scalar_literal_result, digit_run, false_text, true_text};
use crate::number::{all_digits, dec_value, is_digit, le_value, lemma_pow256_pos, pow256};
use crate::display::keyword_text;
use crate::type_parser::keyword_tag;
use crate::types::{int_type, int_width, Literal, TypeTag};

verus! {

/// Every value below `256^w` has a `w`-byte little-endian form.
pub proof fn lemma_le_exists(v: nat, w: nat)
    requires
        v < pow256(w),
    ensures
        exists|b: Seq<u8>| b.len() == w && le_value(b) == v,
    decreases w,
{
    if w == 0 {
        assert(Seq::<u8>::empty().len() == 0 && le_value(Seq::<u8>::empty()) == v);
    } else {
        let p = pow256((w - 1) as nat);
        lemma_pow256_pos((w - 1) as nat);
        let q = v as int / p as int;
        let rem = v as int % p as int;
        lemma_fundamental_div_mod(v as int, p as int);
        lemma_mod_pos_bound(v as int, p as int);
        assert(0 <= q < 256) by (nonlinear_arith)
            requires
                v == p * q + rem,
                0 <= rem < p,
                v < 256 * p,
                p >= 1,
        ;
        lemma_le_exists(rem as nat, (w - 1) as nat);
        let b0 = choose|b: Seq<u8>| b.len() == (w - 1) as nat && le_value(b) == rem as nat;
        let b = b0.push(q as u8);
        assert(b.drop_last() =~= b0);
        assert(le_value(b) == v);
    }
}

proof fn lemma_digit_run(t: Seq<u8>, i: int)
    requires
        0 <= i <= t.len(),
    ensures
        i <= digit_run(t, i) <= t.len(),
        forall|j: int| i <= j < digit_run(t, i) ==> is_digit(#[trigger] t[j]),
    decreases t.len() - i,
{
    if i < t.len() && is_digit(t[i]) {
        lemma_digit_run(t, i + 1);
    }
}

/// A number literal with a width suffix, encoded as the integer type that
/// the suffix names, is exactly that many little-endian bytes holding its
/// value; and it fails with an overflow exactly when the value does not fit.
pub proof fn lemma_suffixed_integer_round_trip(t: Seq<u8>, l: Literal)
    requires
        !is_vector_text(t),
        scalar_literal_result(t, Ok::<Literal, TxError>(l)),
        number_parts(t) is Some,
        number_parts(t)->Some_0.1 > 0,
    ensures
        ({
            let (d, w) = number_parts(t)->Some_0;
            &&& dec_value(d) < pow256(w) ==> (encode_spec(l, int_type(w)) matches Ok(b) && b.len()
                == w && le_value(b) == dec_value(d))
            &&& dec_value(d) >= pow256(w) ==> encode_spec(l, int_type(w)) == Err::<Seq<u8>, TxError>(
                TxError::OverflowError,
            )
        }),
{
    let (d, w) = number_parts(t)->Some_0;
    lemma_digit_run(t, 0);
    let p = digit_run(t, 0);
    assert(p > 0);
    assert(is_digit(t[0]));
    assert(t != true_text());
    assert(t != false_text());
    if t.len() >= 2 && t[0] == 48u8 && t[1] == 120u8 {
        assert(!is_digit(t[1]));
        assert(p == 1);
        assert(false);
    }
    assert(d =~= t.subrange(0, p));
    assert(all_digits(d));
    assert(int_width(int_type(w)) == w);
    if dec_value(d) < pow256(w) {
        lemma_le_exists(dec_value(d), w);
    }
}

/// The canonical text of a primitive type reads back as that type.
pub proof fn lemma_keyword_text_reads_back(t: TypeTag)
    requires
        !(t is Vector),
        !(t is Struct),
    ensures
        keyword_tag(keyword_text(t)) == Some(t),
{
    let k = keyword_text(t);
    match t {
        TypeTag::Bool => {},
        TypeTag::U8 => {
            assert(k != seq![98u8, 111u8, 111u8, 108u8]);
        },
        TypeTag::U16 => {
            assert(k != seq![98u8, 111u8, 111u8, 108u8]);
            assert(k != seq![117u8, 56u8]);
        },
        TypeTag::U32 => {
            assert(k != seq![98u8, 111u8, 111u8, 108u8]);
            assert(k != seq![117u8, 56u8]);
            assert(k[1] != 49u8);
        },
        TypeTag::U64 => {
            assert(k != seq![98u8, 111u8, 111u8, 108u8]);
            assert(k != seq![117u8, 56u8]);
            assert(k[1] != 49u8 && k[1] != 51u8);
        },
        TypeTag::U128 => {
            assert(k[0] != 98u8);
            assert(k.len() == 4);
        },
        TypeTag::U256 => {
            assert(k[0] != 98u8);
            assert(k[1] != 49u8);
        },
        TypeTag::Address => {
            assert(k.len() == 7);
        },
        TypeTag::Signer => {
            assert(k.len() == 6);
        },
        _ => {},
    }
}

} // verus!
