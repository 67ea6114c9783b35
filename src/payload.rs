use vstd::prelude::*;

use crate::error::TxError;
use crate::hex::address_bytes;
use crate::ident::{is_function_id_text, parse_function_id, split3, FunctionId};
use crate::literal::{list_reads_as, list_text_ok, parse_args};
use crate::transaction::{encode_all, encode_args, EntryFunction};
use crate::type_parser::{parse_type_args, type_list_ok, type_list_reads_as};
use crate::types::{Literal, TypeTag};

verus! {

/// A read-only call: the function, its type arguments and encoded arguments,
/// with no sender, sequence number, gas or signature.
#[derive(Debug)]
pub struct ViewCall {
    pub function: FunctionId,
    pub type_args: Vec<TypeTag>,
    pub args: Vec<Vec<u8>>,
}

/// `f` is the function that the text `s` names.
pub open spec fn names_function(s: Seq<u8>, f: FunctionId) -> bool {
    &&& is_function_id_text(s)
    &&& f.address.wf()
    &&& f.address.bytes@ == address_bytes(split3(s)->Some_0.0)
    &&& f.module@ == split3(s)->Some_0.1
    &&& f.function@ == split3(s)->Some_0.2
}

/// `enc` is what the literals in `args` encode to against `params`.
pub open spec fn args_encode_to(args: Seq<u8>, params: Seq<TypeTag>, enc: Seq<Vec<u8>>) -> bool {
    exists|lits: Seq<Literal>|
        #![trigger list_reads_as(args, lits)]
        list_reads_as(args, lits) && lits.len() == params.len() && encode_all(lits, params, lits.len() as int)
            == Ok::<Seq<Seq<u8>>, TxError>(enc.map_values(|b: Vec<u8>| b@))
}

/// What building a call from the literals `lits` comes to: the arity check,
/// then the encoding of each argument against its parameter.
pub open spec fn encoded_outcome(lits: Seq<Literal>, params: Seq<TypeTag>, r: Result<Seq<Seq<u8>>, TxError>) -> bool {
    if lits.len() != params.len() {
        r == Err::<Seq<Seq<u8>>, TxError>(
            TxError::ArityMismatch { expected: params.len() as usize, actual: lits.len() as usize },
        )
    } else {
        r == encode_all(lits, params, lits.len() as int)
    }
}

/// The encoded arguments of a built call, or its error.
pub open spec fn args_result<T>(r: Result<T, TxError>, args: spec_fn(T) -> Seq<Vec<u8>>) -> Result<Seq<Seq<u8>>, TxError> {
    match r {
        Ok(x) => Ok(args(x).map_values(|b: Vec<u8>| b@)),
        Err(e) => Err(e),
    }
}

/// Resolves the function identifier, parses the type arguments and the
/// arguments, and encodes each argument against the declared parameter
/// types. The identifier is checked before either list is read.
pub fn build_entry_function(
    function_id: &[u8],
    type_args: &[u8],
    args: &[u8],
    params: &Vec<TypeTag>,
) -> (r: Result<EntryFunction, TxError>)
    ensures
        !is_function_id_text(function_id@) <==> r == Err::<EntryFunction, TxError>(
            TxError::InvalidIdentifier,
        ),
        is_function_id_text(function_id@) && !type_list_ok(type_args@) ==> r == Err::<EntryFunction, TxError>(
            TxError::ParseError,
        ),
        is_function_id_text(function_id@) && type_list_ok(type_args@) && !list_text_ok(args@) ==> r
            == Err::<EntryFunction, TxError>(TxError::ParseError),
        is_function_id_text(function_id@) && type_list_ok(type_args@) && list_text_ok(args@) ==> exists|
            lits: Seq<Literal>,
        |
            #![trigger list_reads_as(args@, lits)]
            list_reads_as(args@, lits) && encoded_outcome(
                lits,
                params@,
                args_result(r, |x: EntryFunction| x.args@),
            ),
        r matches Ok(e) ==> names_function(function_id@, e.function) && type_list_reads_as(
            type_args@,
            e.type_args@,
        ) && args_encode_to(args@, params@, e.args@),
{
    let function = match parse_function_id(function_id) {
        Ok(f) => f,
        Err(e) => return Err(e),
    };
    let tags = match parse_type_args(type_args) {
        Ok(t) => t,
        Err(e) => return Err(e),
    };
    let lits = match parse_args(args) {
        Ok(l) => l,
        Err(e) => return Err(e),
    };
    let encoded = match encode_args(&lits, params) {
        Ok(v) => v,
        Err(e) => {
            let r = Err(e);
            assert(list_reads_as(args@, lits@) && encoded_outcome(
                lits@,
                params@,
                args_result(r, |x: EntryFunction| x.args@),
            ));
            return r;
        },
    };
    let r = Ok(EntryFunction { function, type_args: tags, args: encoded });
    assert(list_reads_as(args@, lits@) && encoded_outcome(
        lits@,
        params@,
        args_result(r, |x: EntryFunction| x.args@),
    ));
    r
}

/// Builds a read-only call in the same way.
pub fn build_view_call(
    function_id: &[u8],
    type_args: &[u8],
    args: &[u8],
    params: &Vec<TypeTag>,
) -> (r: Result<ViewCall, TxError>)
    ensures
        !is_function_id_text(function_id@) <==> r == Err::<ViewCall, TxError>(
            TxError::InvalidIdentifier,
        ),
        is_function_id_text(function_id@) && !type_list_ok(type_args@) ==> r == Err::<ViewCall, TxError>(
            TxError::ParseError,
        ),
        is_function_id_text(function_id@) && type_list_ok(type_args@) && !list_text_ok(args@) ==> r
            == Err::<ViewCall, TxError>(TxError::ParseError),
        is_function_id_text(function_id@) && type_list_ok(type_args@) && list_text_ok(args@) ==> exists|
            lits: Seq<Literal>,
        |
            #![trigger list_reads_as(args@, lits)]
            list_reads_as(args@, lits) && encoded_outcome(
                lits,
                params@,
                args_result(r, |x: ViewCall| x.args@),
            ),
        r matches Ok(v) ==> names_function(function_id@, v.function) && type_list_reads_as(
            type_args@,
            v.type_args@,
        ) && args_encode_to(args@, params@, v.args@),
{
    let built = build_entry_function(function_id, type_args, args, params);
    let r = match built {
        Ok(e) => Ok(ViewCall { function: e.function, type_args: e.type_args, args: e.args }),
        Err(e) => Err(e),
    };
    assert(args_result(r, |x: ViewCall| x.args@) == args_result(built, |x: EntryFunction| x.args@));
    r
}

} // verus!
