use vstd::prelude::*;

use vstd::arithmetic::div_mod::lemma_div_denominator;

use crate::encode::{append_bytes, push_uleb128, uleb128};
use crate::number::{lemma_pow256_pos, pow256};
use crate::transaction::{EntryFunction, RawTransaction};
use crate::types::TypeTag;

verus! {

/// The eight little-endian bytes of `v`.
pub open spec fn u64_le(v: u64) -> Seq<u8> {
    Seq::new(8, |i: int| ((v as nat / pow256(i as nat)) % 256) as u8)
}

/// A length-prefixed byte string.
pub open spec fn bytes_bcs(b: Seq<u8>) -> Seq<u8> {
    uleb128(b.len() as nat) + b
}

/// The canonical encoding of a type tag.
pub open spec fn type_tag_bcs(t: TypeTag) -> Seq<u8>
    decreases t, 1int, 0int,
{
    match t {
        TypeTag::Bool => seq![0u8],
        TypeTag::U8 => seq![1u8],
        TypeTag::U64 => seq![2u8],
        TypeTag::U128 => seq![3u8],
        TypeTag::Address => seq![4u8],
        TypeTag::Signer => seq![5u8],
        TypeTag::Vector(inner) => seq![6u8] + type_tag_bcs(*inner),
        TypeTag::Struct { address, module, name, type_params } => seq![7u8] + address.bytes@
            + bytes_bcs(module@) + bytes_bcs(name@) + uleb128(type_params@.len() as nat)
            + type_params_bcs(t, type_params@.len() as int),
        TypeTag::U16 => seq![8u8],
        TypeTag::U32 => seq![9u8],
        TypeTag::U256 => seq![10u8],
    }
}

/// The concatenated encodings of the first `n` type parameters of a struct tag.
pub open spec fn type_params_bcs(t: TypeTag, n: int) -> Seq<u8>
    decreases t, 0int, n,
{
    match t {
        TypeTag::Struct { address, module, name, type_params } => if n <= 0 || n
            > type_params@.len() {
            Seq::empty()
        } else {
            type_params_bcs(t, n - 1) + type_tag_bcs(type_params@[n - 1])
        },
        _ => Seq::empty(),
    }
}

/// The concatenated encodings of the first `n` of a list of type tags.
pub open spec fn tag_list_bcs(ts: Seq<TypeTag>, n: int) -> Seq<u8>
    decreases n,
{
    if n <= 0 || n > ts.len() {
        Seq::empty()
    } else {
        tag_list_bcs(ts, n - 1) + type_tag_bcs(ts[n - 1])
    }
}

/// The concatenated length-prefixed encodings of the first `n` arguments.
pub open spec fn arg_list_bcs(args: Seq<Vec<u8>>, n: int) -> Seq<u8>
    decreases n,
{
    if n <= 0 || n > args.len() {
        Seq::empty()
    } else {
        arg_list_bcs(args, n - 1) + bytes_bcs(args[n - 1]@)
    }
}

pub open spec fn entry_function_bcs(e: EntryFunction) -> Seq<u8> {
    e.function.address.bytes@ + bytes_bcs(e.function.module@) + bytes_bcs(e.function.function@)
        + uleb128(e.type_args@.len() as nat) + tag_list_bcs(e.type_args@, e.type_args@.len() as int)
        + uleb128(e.args@.len() as nat) + arg_list_bcs(e.args@, e.args@.len() as int)
}

/// The canonical encoding of a raw transaction: the bytes that are signed.
pub open spec fn raw_transaction_bcs(r: RawTransaction) -> Seq<u8> {
    r.sender@ + u64_le(r.sequence_number) + seq![2u8] + entry_function_bcs(r.payload) + u64_le(
        r.max_gas_amount,
    ) + u64_le(r.gas_unit_price) + u64_le(r.expiration_timestamp_secs) + seq![r.chain_id]
}

pub fn push_u64_le(out: &mut Vec<u8>, v: u64)
    ensures
        final(out)@ == old(out)@ + u64_le(v),
{
    let ghost start = out@;
    let mut cur: u64 = v;
    let mut i: usize = 0;
    assert(pow256(0) == 1);
    while i < 8
        invariant
            i <= 8,
            out@.len() == start.len() + i,
            cur as nat == v as nat / pow256(i as nat),
            forall|j: int| 0 <= j < i ==> #[trigger] out@[start.len() + j] == u64_le(v)[j],
            forall|j: int| 0 <= j < start.len() ==> #[trigger] out@[j] == start[j],
        decreases 8 - i,
    {
        out.push((cur % 256) as u8);
        proof {
            lemma_pow256_pos(i as nat);
            lemma_div_denominator(v as int, pow256(i as nat) as int, 256);
            assert(pow256(i as nat + 1) == 256 * pow256(i as nat));
            assert(pow256(i as nat) * 256 == 256 * pow256(i as nat)) by (nonlinear_arith);
        }
        cur = cur / 256;
        i = i + 1;
    }
    assert forall|j: int| 0 <= j < out@.len() implies #[trigger] out@[j] == (start + u64_le(v))[j] by {
        if j >= start.len() {
            assert(out@[start.len() + (j - start.len())] == u64_le(v)[j - start.len()]);
        }
    }
    assert(out@ =~= start + u64_le(v));
}

fn push_bytes_bcs(out: &mut Vec<u8>, b: &Vec<u8>)
    ensures
        final(out)@ == old(out)@ + bytes_bcs(b@),
{
    let ghost start = out@;
    push_uleb128(out, b.len());
    append_bytes(out, b);
    assert(out@ =~= start + bytes_bcs(b@));
}

/// Appends the canonical encoding of a type tag.
pub fn push_type_tag(out: &mut Vec<u8>, t: &TypeTag)
    ensures
        final(out)@ == old(out)@ + type_tag_bcs(*t),
    decreases t, 1int,
{
    let ghost start = out@;
    match t {
        TypeTag::Bool => out.push(0u8),
        TypeTag::U8 => out.push(1u8),
        TypeTag::U64 => out.push(2u8),
        TypeTag::U128 => out.push(3u8),
        TypeTag::Address => out.push(4u8),
        TypeTag::Signer => out.push(5u8),
        TypeTag::Vector(inner) => {
            out.push(6u8);
            push_type_tag(out, &**inner);
            assert(out@ =~= start + type_tag_bcs(*t));
        },
        TypeTag::Struct { address, module, name, type_params } => {
            out.push(7u8);
            append_bytes(out, &address.bytes);
            push_bytes_bcs(out, module);
            push_bytes_bcs(out, name);
            push_uleb128(out, type_params.len());
            let ghost head = out@;
            let mut i: usize = 0;
            while i < type_params.len()
                invariant
                    i <= type_params@.len(),
                    *t == (TypeTag::Struct { address: *address, module: *module, name: *name, type_params: *type_params }),
                    out@ == head + type_params_bcs(*t, i as int),
                decreases type_params@.len() - i,
            {
                push_type_tag(out, &type_params[i]);
                proof {
                    assert(head + type_params_bcs(*t, i as int + 1) =~= head + type_params_bcs(*t, i as int) + type_tag_bcs(type_params@[i as int]));
                }
                i = i + 1;
            }
            assert(out@ =~= start + type_tag_bcs(*t));
        },
        TypeTag::U16 => out.push(8u8),
        TypeTag::U32 => out.push(9u8),
        TypeTag::U256 => out.push(10u8),
    }
    assert(out@ =~= start + type_tag_bcs(*t));
}

fn push_entry_function(out: &mut Vec<u8>, e: &EntryFunction)
    ensures
        final(out)@ == old(out)@ + entry_function_bcs(*e),
{
    let ghost start = out@;
    append_bytes(out, &e.function.address.bytes);
    push_bytes_bcs(out, &e.function.module);
    push_bytes_bcs(out, &e.function.function);
    push_uleb128(out, e.type_args.len());
    let ghost head = out@;
    let mut i: usize = 0;
    while i < e.type_args.len()
        invariant
            i <= e.type_args@.len(),
            out@ == head + tag_list_bcs(e.type_args@, i as int),
        decreases e.type_args@.len() - i,
    {
        push_type_tag(out, &e.type_args[i]);
        assert(head + tag_list_bcs(e.type_args@, i as int + 1) =~= head + tag_list_bcs(e.type_args@, i as int) + type_tag_bcs(e.type_args@[i as int]));
        i = i + 1;
    }
    push_uleb128(out, e.args.len());
    let ghost head2 = out@;
    let mut j: usize = 0;
    while j < e.args.len()
        invariant
            j <= e.args@.len(),
            out@ == head2 + arg_list_bcs(e.args@, j as int),
        decreases e.args@.len() - j,
    {
        push_bytes_bcs(out, &e.args[j]);
        assert(head2 + arg_list_bcs(e.args@, j as int + 1) =~= head2 + arg_list_bcs(e.args@, j as int) + bytes_bcs(e.args@[j as int]@));
        j = j + 1;
    }
    assert(out@ =~= start + entry_function_bcs(*e));
}

/// The canonical encoding of a raw transaction.
pub fn raw_transaction_bytes(r: &RawTransaction) -> (b: Vec<u8>)
    ensures
        b@ == raw_transaction_bcs(*r),
{
    let mut out: Vec<u8> = Vec::new();
    append_bytes(&mut out, &r.sender);
    push_u64_le(&mut out, r.sequence_number);
    out.push(2u8);
    push_entry_function(&mut out, &r.payload);
    push_u64_le(&mut out, r.max_gas_amount);
    push_u64_le(&mut out, r.gas_unit_price);
    push_u64_le(&mut out, r.expiration_timestamp_secs);
    out.push(r.chain_id);
    assert(out@ =~= raw_transaction_bcs(*r));
    out
}

} // verus!
