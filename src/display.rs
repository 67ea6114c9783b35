use vstd::prelude::*;

use crate::encode::append_bytes;
use crate::types::TypeTag;

verus! {

/// The lowercase hexadecimal digit for a value below sixteen.
pub open spec fn hex_char(v: u8) -> u8 {
    if v < 10 {
        (48 + v) as u8
    } else {
        (87 + v) as u8
    }
}

/// Two lowercase hexadecimal digits per byte.
pub open spec fn hex_text(b: Seq<u8>) -> Seq<u8>
    decreases b.len(),
{
    if b.len() == 0 {
        Seq::empty()
    } else {
        hex_text(b.drop_last()) + seq![hex_char(b.last() / 16), hex_char(b.last() % 16)]
    }
}

/// The keyword text of a primitive type.
pub open spec fn keyword_text(t: TypeTag) -> Seq<u8> {
    match t {
        TypeTag::Bool => seq![98u8, 111u8, 111u8, 108u8],
        TypeTag::U8 => seq![117u8, 56u8],
        TypeTag::U16 => seq![117u8, 49u8, 54u8],
        TypeTag::U32 => seq![117u8, 51u8, 50u8],
        TypeTag::U64 => seq![117u8, 54u8, 52u8],
        TypeTag::U128 => seq![117u8, 49u8, 50u8, 56u8],
        TypeTag::U256 => seq![117u8, 50u8, 53u8, 54u8],
        TypeTag::Address => seq![97u8, 100u8, 100u8, 114u8, 101u8, 115u8, 115u8],
        TypeTag::Signer => seq![115u8, 105u8, 103u8, 110u8, 101u8, 114u8],
        _ => Seq::empty(),
    }
}

/// The canonical text of a type: keywords, `vector<T>`, and struct tags with
/// the full 64-digit address and `, ` between type parameters.
pub open spec fn type_tag_text(t: TypeTag) -> Seq<u8>
    decreases t, 1int, 0int,
{
    match t {
        TypeTag::Vector(inner) => seq![118u8, 101u8, 99u8, 116u8, 111u8, 114u8, 60u8] + type_tag_text(
            *inner,
        ) + seq![62u8],
        TypeTag::Struct { address, module, name, type_params } => {
            let head = seq![48u8, 120u8] + hex_text(address.bytes@) + seq![58u8, 58u8] + module@ + seq![
                58u8,
                58u8,
            ] + name@;
            if type_params@.len() == 0 {
                head
            } else {
                head + seq![60u8] + params_text(t, type_params@.len() as int) + seq![62u8]
            }
        },
        _ => keyword_text(t),
    }
}

/// The texts of the first `n` type parameters of a struct tag, joined by `, `.
pub open spec fn params_text(t: TypeTag, n: int) -> Seq<u8>
    decreases t, 0int, n,
{
    match t {
        TypeTag::Struct { address, module, name, type_params } => if n <= 0 || n
            > type_params@.len() {
            Seq::empty()
        } else if n == 1 {
            type_tag_text(type_params@[0])
        } else {
            params_text(t, n - 1) + seq![44u8, 32u8] + type_tag_text(type_params@[n - 1])
        },
        _ => Seq::empty(),
    }
}

fn hex_digit_char(v: u8) -> (r: u8)
    requires
        v < 16,
    ensures
        r == hex_char(v),
{
    if v < 10 {
        48 + v
    } else {
        87 + v
    }
}

/// Appends the lowercase hexadecimal text of `b`.
pub fn push_hex(out: &mut Vec<u8>, b: &Vec<u8>)
    ensures
        final(out)@ == old(out)@ + hex_text(b@),
{
    let ghost start = out@;
    let mut i: usize = 0;
    assert(b@.subrange(0, 0) =~= Seq::<u8>::empty());
    while i < b.len()
        invariant
            i <= b@.len(),
            out@ == start + hex_text(b@.subrange(0, i as int)),
        decreases b@.len() - i,
    {
        let x = b[i];
        out.push(hex_digit_char(x / 16));
        out.push(hex_digit_char(x % 16));
        assert(b@.subrange(0, i as int + 1).drop_last() =~= b@.subrange(0, i as int));
        assert(out@ =~= start + hex_text(b@.subrange(0, i as int + 1)));
        i = i + 1;
    }
    assert(b@.subrange(0, b@.len() as int) =~= b@);
}

fn push_keyword(out: &mut Vec<u8>, t: &TypeTag)
    ensures
        final(out)@ == old(out)@ + keyword_text(*t),
{
    let ghost start = out@;
    match t {
        TypeTag::Bool => {
            out.push(98u8);
            out.push(111u8);
            out.push(111u8);
            out.push(108u8);
        },
        TypeTag::U8 => {
            out.push(117u8);
            out.push(56u8);
        },
        TypeTag::U16 => {
            out.push(117u8);
            out.push(49u8);
            out.push(54u8);
        },
        TypeTag::U32 => {
            out.push(117u8);
            out.push(51u8);
            out.push(50u8);
        },
        TypeTag::U64 => {
            out.push(117u8);
            out.push(54u8);
            out.push(52u8);
        },
        TypeTag::U128 => {
            out.push(117u8);
            out.push(49u8);
            out.push(50u8);
            out.push(56u8);
        },
        TypeTag::U256 => {
            out.push(117u8);
            out.push(50u8);
            out.push(53u8);
            out.push(54u8);
        },
        TypeTag::Address => {
            out.push(97u8);
            out.push(100u8);
            out.push(100u8);
            out.push(114u8);
            out.push(101u8);
            out.push(115u8);
            out.push(115u8);
        },
        TypeTag::Signer => {
            out.push(115u8);
            out.push(105u8);
            out.push(103u8);
            out.push(110u8);
            out.push(101u8);
            out.push(114u8);
        },
        _ => {},
    }
    assert(out@ =~= start + keyword_text(*t));
}

/// Appends the canonical text of a type.
pub fn push_type_tag_text(out: &mut Vec<u8>, t: &TypeTag)
    ensures
        final(out)@ == old(out)@ + type_tag_text(*t),
    decreases t, 1int,
{
    let ghost start = out@;
    match t {
        TypeTag::Vector(inner) => {
            out.push(118u8);
            out.push(101u8);
            out.push(99u8);
            out.push(116u8);
            out.push(111u8);
            out.push(114u8);
            out.push(60u8);
            push_type_tag_text(out, &**inner);
            out.push(62u8);
            assert(out@ =~= start + type_tag_text(*t));
        },
        TypeTag::Struct { address, module, name, type_params } => {
            out.push(48u8);
            out.push(120u8);
            push_hex(out, &address.bytes);
            out.push(58u8);
            out.push(58u8);
            append_bytes(out, module);
            out.push(58u8);
            out.push(58u8);
            append_bytes(out, name);
            let ghost head = out@;
            assert(head =~= start + (seq![48u8, 120u8] + hex_text(address.bytes@) + seq![58u8, 58u8]
                + module@ + seq![58u8, 58u8] + name@));
            if type_params.len() > 0 {
                out.push(60u8);
                let ghost open = out@;
                let mut i: usize = 0;
                while i < type_params.len()
                    invariant
                        i <= type_params@.len(),
                        *t == (TypeTag::Struct {
                            address: *address,
                            module: *module,
                            name: *name,
                            type_params: *type_params,
                        }),
                        out@ == open + params_text(*t, i as int),
                    decreases type_params@.len() - i,
                {
                    let p = &type_params[i];
                    if i > 0 {
                        out.push(44u8);
                        out.push(32u8);
                    }
                    push_type_tag_text(out, p);
                    proof {
                        if i == 0 {
                            assert(params_text(*t, 0) =~= Seq::<u8>::empty());
                        }
                    }
                    assert(out@ =~= open + params_text(*t, i as int + 1));
                    i = i + 1;
                }
                out.push(62u8);
            }
            assert(out@ =~= start + type_tag_text(*t));
        },
        _ => {
            push_keyword(out, t);
        },
    }
}

/// The canonical text of a list of types, joined by `, `.
pub fn type_args_text(ts: &Vec<TypeTag>) -> (r: Vec<u8>)
    ensures
        r@ == type_list_text(ts@, ts@.len() as int),
{
    let mut out: Vec<u8> = Vec::new();
    let mut i: usize = 0;
    while i < ts.len()
        invariant
            i <= ts@.len(),
            out@ == type_list_text(ts@, i as int),
        decreases ts@.len() - i,
    {
        let ghost before = out@;
        if i > 0 {
            out.push(44u8);
            out.push(32u8);
        }
        push_type_tag_text(&mut out, &ts[i]);
        assert(out@ =~= type_list_text(ts@, i as int + 1));
        i = i + 1;
    }
    out
}

/// The texts of the first `n` types of a list, joined by `, `.
pub open spec fn type_list_text(ts: Seq<TypeTag>, n: int) -> Seq<u8>
    decreases n,
{
    if n <= 0 || n > ts.len() {
        Seq::empty()
    } else if n == 1 {
        type_tag_text(ts[0])
    } else {
        type_list_text(ts, n - 1) + seq![44u8, 32u8] + type_tag_text(ts[n - 1])
    }
}

} // verus!
