use vstd::prelude::*;

verus! {

pub open spec fn pow256(n: nat) -> nat
    decreases n,
{
    if n == 0 {
        1
    } else {
        256 * pow256((n - 1) as nat)
    }
}

pub open spec fn is_digit(c: u8) -> bool {
    48 <= c <= 57
}

pub open spec fn all_digits(s: Seq<u8>) -> bool {
    forall|i: int| 0 <= i < s.len() ==> is_digit(#[trigger] s[i])
}

/// The value of a string of decimal digits.
pub open spec fn dec_value(s: Seq<u8>) -> nat
    decreases s.len(),
{
    if s.len() == 0 {
        0
    } else {
        dec_value(s.drop_last()) * 10 + (s.last() - 48) as nat
    }
}

/// The value of a little-endian byte string.
pub open spec fn le_value(b: Seq<u8>) -> nat
    decreases b.len(),
{
    if b.len() == 0 {
        0
    } else {
        le_value(b.drop_last()) + pow256((b.len() - 1) as nat) * b.last() as nat
    }
}

pub proof fn lemma_pow256_pos(n: nat)
    ensures
        pow256(n) >= 1,
    decreases n,
{
    if n > 0 {
        lemma_pow256_pos((n - 1) as nat);
    }
}

pub proof fn lemma_le_value_bound(b: Seq<u8>)
    ensures
        le_value(b) < pow256(b.len()),
    decreases b.len(),
{
    if b.len() > 0 {
        let n = (b.len() - 1) as nat;
        lemma_le_value_bound(b.drop_last());
        let p = pow256(n);
        let x = b.last() as nat;
        assert(le_value(b.drop_last()) < p);
        assert(x <= 255);
        assert(le_value(b.drop_last()) + p * x < 256 * p) by (nonlinear_arith)
            requires
                le_value(b.drop_last()) < p,
                x <= 255,
        ;
    }
}

pub proof fn lemma_dec_value_prefix_mono(s: Seq<u8>, i: int)
    requires
        0 <= i <= s.len(),
        all_digits(s),
    ensures
        dec_value(s.subrange(0, i)) <= dec_value(s),
    decreases s.len() - i,
{
    if i < s.len() {
        lemma_dec_value_prefix_mono(s, i + 1);
        let t = s.subrange(0, i + 1);
        assert(t.drop_last() =~= s.subrange(0, i));
    } else {
        assert(s.subrange(0, i) =~= s);
    }
}

/// Multiplies the little-endian number in `b` by ten and adds `d`, in place,
/// returning what carries out of the top byte.
fn mul10_add(b: &mut Vec<u8>, d: u8) -> (carry: u8)
    requires
        d < 10,
    ensures
        final(b)@.len() == old(b)@.len(),
        carry < 10,
        le_value(final(b)@) + pow256(old(b)@.len()) * carry as nat == 10 * le_value(old(b)@) + d as nat,
{
    let ghost orig = b@;
    let n = b.len();
    let mut c: u32 = d as u32;
    let mut k: usize = 0;
    assert(b@.subrange(0, 0) =~= Seq::<u8>::empty());
    assert(orig.subrange(0, 0) =~= Seq::<u8>::empty());
    assert(pow256(0) == 1);
    assert(le_value(Seq::<u8>::empty()) == 0);
    while k < n
        invariant
            k <= n,
            n == b@.len(),
            n == orig.len(),
            c < 10,
            forall|j: int| k <= j < n ==> #[trigger] b@[j] == orig[j],
            le_value(b@.subrange(0, k as int)) + pow256(k as nat) * c as nat == 10 * le_value(
                orig.subrange(0, k as int),
            ) + d as nat,
        decreases n - k,
    {
        let ghost before = b@;
        let t: u32 = (b[k] as u32) * 10 + c;
        let ob = b[k];
        b.set(k, (t % 256) as u8);
        let ghost p = pow256(k as nat);
        let ghost lo_new = le_value(before.subrange(0, k as int));
        let ghost lo_old = le_value(orig.subrange(0, k as int));
        assert(b@.subrange(0, k as int + 1).drop_last() =~= before.subrange(0, k as int));
        assert(orig.subrange(0, k as int + 1).drop_last() =~= orig.subrange(0, k as int));
        assert(le_value(b@.subrange(0, k as int + 1)) == lo_new + p * (t % 256) as nat);
        assert(le_value(orig.subrange(0, k as int + 1)) == lo_old + p * ob as nat);
        assert(pow256(k as nat + 1) == 256 * p);
        assert(lo_new + p * (t % 256) as nat + (256 * p) * (t / 256) as nat == 10 * (lo_old + p
            * ob as nat) + d as nat) by (nonlinear_arith)
            requires
                lo_new + p * c as nat == 10 * lo_old + d as nat,
                t == ob as nat * 10 + c,
        ;
        c = t / 256;
        k = k + 1;
    }
    assert(b@.subrange(0, n as int) =~= b@);
    assert(orig.subrange(0, n as int) =~= orig);
    c as u8
}

/// Reads decimal digits into a little-endian number of `width` bytes;
/// `None` when the value does not fit.
pub fn decimal_to_le(digits: &[u8], width: usize) -> (r: Option<Vec<u8>>)
    requires
        all_digits(digits@),
    ensures
        r is None <==> dec_value(digits@) >= pow256(width as nat),
        r matches Some(b) ==> b@.len() == width && le_value(b@) == dec_value(digits@),
{
    let mut b: Vec<u8> = Vec::new();
    let mut k: usize = 0;
    while k < width
        invariant
            k <= width,
            b@.len() == k,
            forall|j: int| 0 <= j < k ==> #[trigger] b@[j] == 0,
            le_value(b@) == 0,
        decreases width - k,
    {
        let ghost before = b@;
        b.push(0);
        assert(b@.drop_last() =~= before);
        assert(le_value(b@) == le_value(before) + pow256(k as nat) * 0);
        k = k + 1;
    }
    let mut i: usize = 0;
    assert(digits@.subrange(0, 0) =~= Seq::<u8>::empty());
    while i < digits.len()
        invariant
            i <= digits@.len(),
            all_digits(digits@),
            b@.len() == width,
            le_value(b@) == dec_value(digits@.subrange(0, i as int)),
        decreases digits@.len() - i,
    {
        let d = digits[i] - 48;
        let carry = mul10_add(&mut b, d);
        assert(digits@.subrange(0, i as int + 1).drop_last() =~= digits@.subrange(0, i as int));
        if carry != 0 {
            proof {
                lemma_dec_value_prefix_mono(digits@, i as int + 1);
                assert(pow256(width as nat) * carry as nat >= pow256(width as nat)) by (nonlinear_arith)
                    requires
                        carry >= 1,
                ;
            }
            return None;
        }
        i = i + 1;
    }
    proof {
        assert(digits@.subrange(0, digits@.len() as int) =~= digits@);
        lemma_le_value_bound(b@);
    }
    Some(b)
}

} // verus!
