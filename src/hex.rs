use vstd::prelude::*;

use crate::error::TxError;

verus! {

/// Number of bytes in an account address.
pub const ADDRESS_LENGTH: usize = 32;

pub open spec fn is_hex_digit(c: u8) -> bool {
    (48 <= c <= 57) || (97 <= c <= 102) || (65 <= c <= 70)
}

pub open spec fn hex_val(c: u8) -> nat {
    if 48 <= c <= 57 {
        (c - 48) as nat
    } else if 97 <= c <= 102 {
        (c - 87) as nat
    } else if 65 <= c <= 70 {
        (c - 55) as nat
    } else {
        0
    }
}

pub open spec fn all_hex(s: Seq<u8>) -> bool {
    forall|i: int| 0 <= i < s.len() ==> is_hex_digit(#[trigger] s[i])
}

/// `0x` followed by one to sixty-four hexadecimal digits.
pub open spec fn is_address_text(s: Seq<u8>) -> bool {
    &&& s.len() >= 3
    &&& s.len() <= 66
    &&& s[0] == 48u8
    &&& s[1] == 120u8
    &&& all_hex(s.subrange(2, s.len() as int))
}

/// The `k`-th of the 64 nibbles of an address written with `digits`,
/// the digits being left-padded with zeros.
pub open spec fn padded_nibble(digits: Seq<u8>, k: int) -> nat {
    let pad = 64 - digits.len();
    if k < pad {
        0
    } else {
        hex_val(digits[k - pad])
    }
}

/// The 32 big-endian bytes that the hex digits after `0x` denote.
pub open spec fn address_bytes(s: Seq<u8>) -> Seq<u8> {
    let digits = s.subrange(2, s.len() as int);
    Seq::new(32, |i: int| (padded_nibble(digits, 2 * i) * 16 + padded_nibble(digits, 2 * i + 1)) as u8)
}

/// A 32-byte account identifier.
#[derive(Debug, Clone, PartialEq, Eq)]
pub struct AccountAddress {
    pub bytes: Vec<u8>,
}

impl AccountAddress {
    pub open spec fn wf(&self) -> bool {
        self.bytes@.len() == 32
    }
}

pub fn hex_digit_value(c: u8) -> (r: Option<u8>)
    ensures
        r is Some <==> is_hex_digit(c),
        r matches Some(v) ==> v as nat == hex_val(c) && v < 16,
{
    if 48 <= c && c <= 57 {
        Some(c - 48)
    } else if 97 <= c && c <= 102 {
        Some(c - 87)
    } else if 65 <= c && c <= 70 {
        Some(c - 55)
    } else {
        None
    }
}

/// Parses `0x`-prefixed hexadecimal into a 32-byte address, padding on the left.
pub fn parse_address(s: &[u8]) -> (r: Result<AccountAddress, TxError>)
    ensures
        r is Ok <==> is_address_text(s@),
        r matches Ok(a) ==> a.wf() && a.bytes@ == address_bytes(s@),
        r matches Err(e) ==> e == TxError::ParseError,
{
    let n = s.len();
    if n < 3 || n > 66 || s[0] != 48u8 || s[1] != 120u8 {
        return Err(TxError::ParseError);
    }
    let ghost digits = s@.subrange(2, n as int);
    let nd: usize = n - 2;
    let pad: usize = 64 - nd;
    let mut i: usize = 2;
    while i < n
        invariant
            2 <= i <= n,
            3 <= n <= 66,
            n == s@.len(),
            digits == s@.subrange(2, n as int),
            forall|j: int| 0 <= j < i - 2 ==> is_hex_digit(#[trigger] digits[j]),
        decreases n - i,
    {
        if hex_digit_value(s[i]).is_none() {
            assert(digits[i - 2] == s@[i as int]);
            return Err(TxError::ParseError);
        }
        i = i + 1;
    }
    let mut bytes: Vec<u8> = Vec::new();
    let mut k: usize = 0;
    while k < 32
        invariant
            k <= 32,
            3 <= n <= 66,
            n == s@.len(),
            nd == digits.len(),
            pad == 64 - nd,
            digits == s@.subrange(2, n as int),
            all_hex(digits),
            bytes@.len() == k,
            forall|j: int| 0 <= j < k ==> #[trigger] bytes@[j] == address_bytes(s@)[j],
        decreases 32 - k,
    {
        let hi = nibble_at(s, pad, 2 * k);
        let lo = nibble_at(s, pad, 2 * k + 1);
        bytes.push(hi * 16 + lo);
        k = k + 1;
    }
    assert(bytes@ =~= address_bytes(s@));
    Ok(AccountAddress { bytes })
}

fn nibble_at(s: &[u8], pad: usize, k: usize) -> (r: u8)
    requires
        s@.len() >= 3,
        s@.len() <= 66,
        pad == 64 - (s@.len() - 2),
        k < 64,
        all_hex(s@.subrange(2, s@.len() as int)),
    ensures
        r as nat == padded_nibble(s@.subrange(2, s@.len() as int), k as int),
        r < 16,
{
    if k < pad {
        0
    } else {
        let c = s[2 + k - pad];
        assert(s@.subrange(2, s@.len() as int)[k - pad] == c);
        match hex_digit_value(c) {
            Some(v) => v,
            None => 0,
        }
    }
}

} // verus!
