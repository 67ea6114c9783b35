use vstd::prelude::*;

use crate::encode::{append_bytes, encode_arg, encode_spec, push_uleb128, uleb128};
use crate::error::TxError;
use crate::ident::FunctionId;
use crate::types::{Literal, TypeTag};

verus! {

/// Gas budget used when the caller names none.
pub const DEFAULT_MAX_GAS: u64 = 5000;

/// Price of one gas unit used when the caller names none.
pub const DEFAULT_GAS_UNIT_PRICE: u64 = 100;

/// Seconds from now after which a transaction expires, by default.
pub const DEFAULT_EXPIRATION_WINDOW_SECS: u64 = 30;

/// The encodings of `lits` against `params`, position by position, or the
/// first error.
pub open spec fn encode_all(lits: Seq<Literal>, params: Seq<TypeTag>, n: int) -> Result<Seq<Seq<u8>>, TxError>
    decreases n,
{
    if n <= 0 {
        Ok(Seq::empty())
    } else {
        match encode_all(lits, params, n - 1) {
            Ok(prefix) => match encode_spec(lits[n - 1], params[n - 1]) {
                Ok(b) => Ok(prefix.push(b)),
                Err(e) => Err(e),
            },
            Err(e) => Err(e),
        }
    }
}

proof fn lemma_encode_all_err(lits: Seq<Literal>, params: Seq<TypeTag>, i: int, k: int, e: TxError)
    requires
        1 <= i <= k,
        encode_all(lits, params, i) == Err::<Seq<Seq<u8>>, TxError>(e),
    ensures
        encode_all(lits, params, k) == Err::<Seq<Seq<u8>>, TxError>(e),
    decreases k - i,
{
    if i < k {
        lemma_encode_all_err(lits, params, i, k - 1, e);
    }
}

/// Encodes each argument against the declared parameter type at its position.
/// A count that differs from the parameter count is refused before anything
/// is encoded.
pub fn encode_args(lits: &Vec<Literal>, params: &Vec<TypeTag>) -> (r: Result<Vec<Vec<u8>>, TxError>)
    ensures
        lits@.len() != params@.len() <==> r == Err::<Vec<Vec<u8>>, TxError>(
            TxError::ArityMismatch { expected: params@.len() as usize, actual: lits@.len() as usize },
        ),
        lits@.len() == params@.len() ==> match r {
            Ok(v) => encode_all(lits@, params@, lits@.len() as int) == Ok::<Seq<Seq<u8>>, TxError>(
                v@.map_values(|b: Vec<u8>| b@),
            ),
            Err(e) => encode_all(lits@, params@, lits@.len() as int) == Err::<Seq<Seq<u8>>, TxError>(e),
        },
        r matches Err(e) ==> e is ArityMismatch || e == TxError::ParseError || e
            == TxError::OverflowError,
{
    if lits.len() != params.len() {
        return Err(TxError::ArityMismatch { expected: params.len(), actual: lits.len() });
    }
    let n = lits.len();
    let mut out: Vec<Vec<u8>> = Vec::new();
    let mut i: usize = 0;
    assert(out@.map_values(|b: Vec<u8>| b@) =~= Seq::<Seq<u8>>::empty());
    while i < n
        invariant
            n == lits@.len(),
            n == params@.len(),
            i <= n,
            encode_all(lits@, params@, i as int) == Ok::<Seq<Seq<u8>>, TxError>(
                out@.map_values(|b: Vec<u8>| b@),
            ),
        decreases n - i,
    {
        match encode_arg(&lits[i], &params[i]) {
            Ok(b) => {
                let ghost prev = out@.map_values(|b: Vec<u8>| b@);
                out.push(b);
                assert(out@.map_values(|b: Vec<u8>| b@) =~= prev.push(b@));
            },
            Err(e) => {
                proof {
                    lemma_encode_all_err(lits@, params@, i as int + 1, n as int, e);
                }
                return Err(e);
            },
        }
        i = i + 1;
    }
    Ok(out)
}

/// A call of an entry function with its type arguments and encoded arguments.
#[derive(Debug)]
pub struct EntryFunction {
    pub function: FunctionId,
    pub type_args: Vec<TypeTag>,
    pub args: Vec<Vec<u8>>,
}

/// The unsigned transaction.
#[derive(Debug)]
pub struct RawTransaction {
    pub sender: Vec<u8>,
    pub sequence_number: u64,
    pub payload: EntryFunction,
    pub max_gas_amount: u64,
    pub gas_unit_price: u64,
    pub expiration_timestamp_secs: u64,
    pub chain_id: u8,
}

/// `now + window`, held at the largest timestamp rather than wrapping.
pub fn expiration_after(now_secs: u64, window_secs: u64) -> (r: u64)
    ensures
        r as int == if now_secs + window_secs > u64::MAX { u64::MAX as int } else { now_secs + window_secs },
{
    now_secs.saturating_add(window_secs)
}

/// Puts a raw transaction together from a 32-byte sender address. Absent gas
/// figures take their defaults.
/// The expiration is taken as given: one already past is not refused here,
/// since only the network judges it, and such a transaction will be rejected there.
pub fn assemble(
    sender: Vec<u8>,
    sequence_number: u64,
    payload: EntryFunction,
    max_gas: Option<u64>,
    gas_unit_price: Option<u64>,
    expiration_timestamp_secs: u64,
    chain_id: u8,
) -> (r: RawTransaction)
    requires
        sender@.len() == 32,
    ensures
        r.sender == sender,
        r.sequence_number == sequence_number,
        r.payload == payload,
        r.max_gas_amount == match max_gas { Some(g) => g, None => DEFAULT_MAX_GAS },
        r.gas_unit_price == match gas_unit_price { Some(g) => g, None => DEFAULT_GAS_UNIT_PRICE },
        r.expiration_timestamp_secs == expiration_timestamp_secs,
        r.chain_id == chain_id,
{
    let max_gas_amount = match max_gas {
        Some(g) => g,
        None => DEFAULT_MAX_GAS,
    };
    let price = match gas_unit_price {
        Some(g) => g,
        None => DEFAULT_GAS_UNIT_PRICE,
    };
    RawTransaction {
        sender,
        sequence_number,
        payload,
        max_gas_amount,
        gas_unit_price: price,
        expiration_timestamp_secs,
        chain_id,
    }
}

} // verus!
