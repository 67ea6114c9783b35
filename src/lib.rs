//! Client-side construction of Move entry-function transactions: parsing of
//! function identifiers, type arguments and literal arguments, their canonical
//! binary encoding, assembly of the raw transaction, and its signature.

mod bcs;
mod crypto;
mod decode;
mod display;
mod encode;
mod error;
mod hex;
mod ident;
mod keys;
mod laws;
mod literal;
mod number;
mod payload;
mod signer;
mod split;
mod transaction;
mod type_parser;
mod types;

pub use bcs::{push_type_tag, raw_transaction_bytes};
pub use decode::{decode_value, decode_values, read_uleb128, MoveValue};
pub use display::{push_type_tag_text, type_args_text};
pub use encode::encode_arg;
pub use error::TxError;
pub use hex::{parse_address, AccountAddress};
pub use ident::{parse_function_id, FunctionId};
pub use keys::parse_private_key;
pub use laws::{lemma_keyword_text_reads_back, lemma_le_exists, lemma_suffixed_integer_round_trip};
pub use literal::{parse_args, parse_literal};
pub use number::decimal_to_le;
pub use payload::{build_entry_function, build_view_call, ViewCall};
pub use signer::{sign_transaction, signing_message, verify_signed_transaction, SignedTransaction};
pub use split::split_top_level;
pub use transaction::{
    assemble, encode_args, expiration_after, EntryFunction, RawTransaction, DEFAULT_EXPIRATION_WINDOW_SECS,
    DEFAULT_GAS_UNIT_PRICE, DEFAULT_MAX_GAS,
};
pub use type_parser::{parse_type_args, parse_type_tag};
pub use types::{Literal, TypeTag};
