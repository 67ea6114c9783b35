use vstd::prelude::*;

use crate::error::TxError;
use crate::hex::{all_hex, hex_digit_value, is_hex_digit};
use crate::literal::hex_pairs;

verus! {

/// The hex digits of a private key, with an optional `0x` in front.
pub open spec fn key_digits(s: Seq<u8>) -> Seq<u8> {
    if s.len() >= 2 && s[0] == 48u8 && s[1] == 120u8 {
        s.subrange(2, s.len() as int)
    } else {
        s
    }
}

/// Sixty-four hexadecimal digits, optionally after `0x`.
pub open spec fn is_key_text(s: Seq<u8>) -> bool {
    key_digits(s).len() == 64 && all_hex(key_digits(s))
}

/// Reads a 32-byte private key written in hexadecimal.
pub fn parse_private_key(s: &[u8]) -> (r: Result<Vec<u8>, TxError>)
    ensures
        r is Ok <==> is_key_text(s@),
        r matches Ok(k) ==> k@ == hex_pairs(key_digits(s@)) && k@.len() == 32,
        r matches Err(e) ==> e == TxError::InvalidKey,
{
    let n = s.len();
    let start: usize = if n >= 2 && s[0] == 48u8 && s[1] == 120u8 { 2 } else { 0 };
    if n - start != 64 {
        return Err(TxError::InvalidKey);
    }
    let ghost h = key_digits(s@);
    assert(h =~= s@.subrange(start as int, n as int));
    let mut out: Vec<u8> = Vec::new();
    let mut i: usize = 0;
    while i < 32
        invariant
            n == s@.len(),
            start + 64 == n,
            h == s@.subrange(start as int, n as int),
            h.len() == 64,
            i <= 32,
            out@.len() == i,
            forall|j: int| 0 <= j < 2 * i ==> is_hex_digit(#[trigger] h[j]),
            forall|j: int| 0 <= j < i ==> #[trigger] out@[j] == hex_pairs(h)[j],
        decreases 32 - i,
    {
        let c1 = s[start + 2 * i];
        let c2 = s[start + 2 * i + 1];
        assert(h[2 * i] == c1 && h[2 * i + 1] == c2);
        let v1 = match hex_digit_value(c1) {
            Some(v) => v,
            None => return Err(TxError::InvalidKey),
        };
        let v2 = match hex_digit_value(c2) {
            Some(v) => v,
            None => return Err(TxError::InvalidKey),
        };
        out.push(v1 * 16 + v2);
        i = i + 1;
    }
    assert(out@ =~= hex_pairs(h));
    Ok(out)
}

} // verus!
