use txs::{
    type_args_text, decode_values, read_uleb128, MoveValue,
    assemble, build_entry_function, decimal_to_le, encode_arg, encode_args, expiration_after, parse_address,
    parse_args, parse_function_id, parse_literal, parse_private_key, parse_type_args, parse_type_tag,
    raw_transaction_bytes, sign_transaction, signing_message, split_top_level, verify_signed_transaction,
    EntryFunction, Literal, RawTransaction, TxError, TypeTag, DEFAULT_GAS_UNIT_PRICE, DEFAULT_MAX_GAS,
};

fn hex(s: &str) -> Vec<u8> {
    (0..s.len() / 2).map(|i| u8::from_str_radix(&s[2 * i..2 * i + 2], 16).unwrap()).collect()
}

fn encode_text(lit: &str, ty: &TypeTag) -> Result<Vec<u8>, TxError> {
    let l = parse_literal(lit.as_bytes()).unwrap();
    encode_arg(&l, ty)
}

fn sample_payload() -> EntryFunction {
    build_entry_function(b"0x1::coin::transfer", b"0x1::aptos_coin::AptosCoin", b"0x2, 10", &vec![TypeTag::Address, TypeTag::U64])
        .unwrap()
}

fn sample_raw(expiration: u64) -> RawTransaction {
    let sender = parse_address(b"0xa").unwrap().bytes;
    assemble(sender, 7, sample_payload(), None, None, expiration, 4)
}

#[test]
fn address_is_left_padded() {
    let a = parse_address(b"0x1").unwrap();
    let mut want = vec![0u8; 32];
    want[31] = 1;
    assert_eq!(a.bytes, want);
    let b = parse_address(b"0xABc").unwrap();
    assert_eq!(b.bytes[30], 0x0a);
    assert_eq!(b.bytes[31], 0xbc);
    assert_eq!(parse_address(b"0x").unwrap_err(), TxError::ParseError);
    assert_eq!(parse_address(b"0xg1").unwrap_err(), TxError::ParseError);
    assert_eq!(parse_address(b"12").unwrap_err(), TxError::ParseError);
}

#[test]
fn function_id_splits_into_three() {
    let f = parse_function_id(b"0x1::coin::transfer").unwrap();
    assert_eq!(f.address.bytes[31], 1);
    assert_eq!(f.module, b"coin".to_vec());
    assert_eq!(f.function, b"transfer".to_vec());
}

#[test]
fn function_id_missing_module_is_invalid() {
    assert_eq!(parse_function_id(b"0x1::transfer").unwrap_err(), TxError::InvalidIdentifier);
    assert_eq!(parse_function_id(b"0x1::a::b::c").unwrap_err(), TxError::InvalidIdentifier);
    assert_eq!(parse_function_id(b"zz::a::b").unwrap_err(), TxError::InvalidIdentifier);
    assert_eq!(parse_function_id(b"0x1::9a::b").unwrap_err(), TxError::InvalidIdentifier);
    // the identifier is refused before the malformed type and argument lists are read
    let r = build_entry_function(b"0x1::transfer", b"vector<", b"[1,", &vec![]);
    assert_eq!(r.unwrap_err(), TxError::InvalidIdentifier);
}

#[test]
fn five_literals_with_their_types() {
    let v = parse_args(b"0x1, true, 12, 24_u8, x\"123456\"").unwrap();
    assert_eq!(v.len(), 5);
    let types: Vec<TypeTag> = v.iter().map(|l| l.natural_type()).collect();
    assert_eq!(
        types,
        vec![TypeTag::Address, TypeTag::Bool, TypeTag::U64, TypeTag::U8, TypeTag::Vector(Box::new(TypeTag::U8))]
    );
    assert_eq!(v[4], Literal::Bytes(vec![0x12, 0x34, 0x56]));
    assert_eq!(v[3], Literal::Number { digits: b"24".to_vec(), suffix: Some(1) });
    assert_eq!(v[2], Literal::Number { digits: b"12".to_vec(), suffix: None });
}

#[test]
fn empty_text_holds_no_arguments() {
    assert_eq!(parse_args(b"").unwrap().len(), 0);
    assert_eq!(parse_args(b"   ").unwrap().len(), 0);
    assert_eq!(parse_type_args(b"").unwrap().len(), 0);
}

#[test]
fn malformed_literals_are_refused() {
    assert_eq!(parse_args(b"1,,2").unwrap_err(), TxError::ParseError);
    assert_eq!(parse_args(b"[1, 2").unwrap_err(), TxError::ParseError);
    assert_eq!(parse_args(b"x\"123\"").unwrap_err(), TxError::ParseError);
    assert_eq!(parse_args(b"12_u7").unwrap_err(), TxError::ParseError);
    assert_eq!(parse_args(b"hello").unwrap_err(), TxError::ParseError);
}

#[test]
fn integer_widths_round_trip() {
    assert_eq!(encode_text("255_u8", &TypeTag::U8).unwrap(), vec![0xff]);
    assert_eq!(encode_text("256_u8", &TypeTag::U8).unwrap_err(), TxError::OverflowError);
    assert_eq!(encode_text("258_u16", &TypeTag::U16).unwrap(), vec![2, 1]);
    assert_eq!(encode_text("65536_u16", &TypeTag::U16).unwrap_err(), TxError::OverflowError);
    assert_eq!(encode_text("4294967295_u32", &TypeTag::U32).unwrap(), vec![0xff; 4]);
    assert_eq!(encode_text("12", &TypeTag::U64).unwrap(), vec![12, 0, 0, 0, 0, 0, 0, 0]);
    assert_eq!(encode_text("18446744073709551616", &TypeTag::U64).unwrap_err(), TxError::OverflowError);
    assert_eq!(
        encode_text("340282366920938463463374607431768211455_u128", &TypeTag::U128).unwrap(),
        vec![0xff; 16]
    );
    let max256 = "115792089237316195423570985008687907853269984665640564039457584007913129639935";
    assert_eq!(encode_text(max256, &TypeTag::U256).unwrap(), vec![0xff; 32]);
    let over256 = "115792089237316195423570985008687907853269984665640564039457584007913129639936";
    assert_eq!(encode_text(over256, &TypeTag::U256).unwrap_err(), TxError::OverflowError);
}

#[test]
fn declared_type_wins_and_contradiction_is_refused() {
    assert_eq!(encode_text("7", &TypeTag::U8).unwrap(), vec![7]);
    assert_eq!(encode_text("24_u8", &TypeTag::U64).unwrap_err(), TxError::ParseError);
    assert_eq!(encode_text("true", &TypeTag::U8).unwrap_err(), TxError::ParseError);
}

#[test]
fn decimal_bytes_are_little_endian() {
    assert_eq!(decimal_to_le(b"1000", 2), Some(vec![0xe8, 0x03]));
    assert_eq!(decimal_to_le(b"0", 0), Some(vec![]));
    assert_eq!(decimal_to_le(b"1", 0), None);
}

#[test]
fn vector_of_u64_is_length_prefixed() {
    let ty = TypeTag::Vector(Box::new(TypeTag::U64));
    let mut want = vec![3u8];
    for k in 1..=3u8 {
        want.push(k);
        want.extend_from_slice(&[0; 7]);
    }
    assert_eq!(encode_text("[1, 2, 3]", &ty).unwrap(), want);
    let nested = TypeTag::Vector(Box::new(TypeTag::Vector(Box::new(TypeTag::U8))));
    assert_eq!(encode_text("[[1, 2], []]", &nested).unwrap(), vec![2, 2, 1, 2, 0]);
}

#[test]
fn bool_address_and_bytes_encodings() {
    assert_eq!(encode_text("true", &TypeTag::Bool).unwrap(), vec![1]);
    assert_eq!(encode_text("false", &TypeTag::Bool).unwrap(), vec![0]);
    let a = encode_text("0x1", &TypeTag::Address).unwrap();
    assert_eq!(a.len(), 32);
    assert_eq!(a[31], 1);
    let bytes = TypeTag::Vector(Box::new(TypeTag::U8));
    assert_eq!(encode_text("x\"123456\"", &bytes).unwrap(), vec![3, 0x12, 0x34, 0x56]);
    let long = format!("x\"{}\"", "ab".repeat(200));
    let enc = encode_text(&long, &bytes).unwrap();
    assert_eq!(&enc[..2], &[0xc8, 0x01]);
    assert_eq!(enc.len(), 202);
}

#[test]
fn two_parameters_one_argument_is_arity_mismatch() {
    let lits = parse_args(b"1").unwrap();
    let r = encode_args(&lits, &vec![TypeTag::U64, TypeTag::U64]);
    assert_eq!(r.unwrap_err(), TxError::ArityMismatch { expected: 2, actual: 1 });
    let r = build_entry_function(b"0x1::m::f", b"", b"1", &vec![TypeTag::U64, TypeTag::U64]);
    assert_eq!(r.unwrap_err(), TxError::ArityMismatch { expected: 2, actual: 1 });
}

#[test]
fn type_tags_parse_with_nesting() {
    let v = parse_type_args(b"u8, u16, u32, u64, u128, u256, bool, address, vector<u8>, signer").unwrap();
    assert_eq!(v.len(), 10);
    assert_eq!(v[8], TypeTag::Vector(Box::new(TypeTag::U8)));
    assert_eq!(v[9], TypeTag::Signer);
    let s = parse_type_tag(b"0x1::coin::Coin<0x1::aptos_coin::AptosCoin, vector<u64>>").unwrap();
    match s {
        TypeTag::Struct { address, module, name, type_params } => {
            assert_eq!(address.bytes[31], 1);
            assert_eq!(module, b"coin".to_vec());
            assert_eq!(name, b"Coin".to_vec());
            assert_eq!(type_params.len(), 2);
            assert_eq!(type_params[1], TypeTag::Vector(Box::new(TypeTag::U64)));
        }
        _ => panic!("not a struct"),
    }
    assert_eq!(parse_type_args(b"vector<u8").unwrap_err(), TxError::ParseError);
    assert_eq!(parse_type_args(b"u9").unwrap_err(), TxError::ParseError);
    assert_eq!(parse_type_args(b"0x1::coin").unwrap_err(), TxError::ParseError);
}

#[test]
fn type_tags_ignore_whitespace() {
    let a = parse_type_args(b"vector<vector<u8>>,0x1::coin::Coin<0x1::aptos_coin::AptosCoin>").unwrap();
    let b = parse_type_args(b"  vector< vector<u8> > , 0x1::coin::Coin<  0x1::aptos_coin::AptosCoin >  ").unwrap();
    assert_eq!(a, b);
}

#[test]
fn top_level_commas_only() {
    let r = split_top_level(b"a<b,c>,d").unwrap();
    assert_eq!(r, vec![(0, 6), (7, 8)]);
    assert_eq!(split_top_level(b"a>").unwrap_err(), TxError::ParseError);
}

#[test]
fn past_expiration_is_kept() {
    let raw = sample_raw(0);
    assert_eq!(raw.expiration_timestamp_secs, 0);
    assert_eq!(raw.max_gas_amount, DEFAULT_MAX_GAS);
    assert_eq!(raw.gas_unit_price, DEFAULT_GAS_UNIT_PRICE);
    assert_eq!(expiration_after(100, 30), 130);
    assert_eq!(expiration_after(u64::MAX, 30), u64::MAX);
}

#[test]
fn raw_transaction_layout() {
    let raw = sample_raw(1000);
    let b = raw_transaction_bytes(&raw);
    assert_eq!(b[31], 0x0a);
    assert_eq!(&b[32..40], &[7, 0, 0, 0, 0, 0, 0, 0]);
    assert_eq!(b[40], 2);
    assert_eq!(b[b.len() - 1], 4);
    assert_eq!(&b[b.len() - 9..b.len() - 1], &[0xe8, 0x03, 0, 0, 0, 0, 0, 0]);
}

#[test]
fn private_key_text() {
    let k = parse_private_key(b"0x9d61b19deffd5a60ba844af492ec2cc44449c5697b326919703bac031cae7f60").unwrap();
    assert_eq!(k, hex("9d61b19deffd5a60ba844af492ec2cc44449c5697b326919703bac031cae7f60"));
    assert_eq!(parse_private_key(b"0x12").unwrap_err(), TxError::InvalidKey);
}

#[test]
fn signing_uses_the_key_and_the_message() {
    let key = hex("9d61b19deffd5a60ba844af492ec2cc44449c5697b326919703bac031cae7f60");
    let st = sign_transaction(sample_raw(1000), &key).unwrap();
    assert_eq!(st.public_key, hex("d75a980182b10ab7d54bfed3c964073a0ee172f3daa62325af021a68f707511a"));
    assert_eq!(st.signature.len(), 64);
    let msg = signing_message(&st.raw);
    let body = raw_transaction_bytes(&st.raw);
    assert_eq!(msg.len(), 32 + body.len());
    assert_eq!(&msg[32..], &body[..]);
    assert_ne!(&msg[..21], b"APTOS::RawTransaction");
    assert_eq!(sign_transaction(sample_raw(1000), &vec![1u8; 31]).unwrap_err(), TxError::InvalidKey);
}

#[test]
fn signing_twice_both_verify() {
    let key = hex("9d61b19deffd5a60ba844af492ec2cc44449c5697b326919703bac031cae7f60");
    let a = sign_transaction(sample_raw(1000), &key).unwrap();
    let b = sign_transaction(sample_raw(1000), &key).unwrap();
    assert!(verify_signed_transaction(&a));
    assert!(verify_signed_transaction(&b));
    assert_eq!(a.signature, b.signature);
    let mut c = sign_transaction(sample_raw(1000), &key).unwrap();
    c.signature[0] ^= 1;
    assert!(!verify_signed_transaction(&c));
}

#[test]
fn view_results_decode_by_type() {
    let tys = vec![TypeTag::U64, TypeTag::Bool, TypeTag::Vector(Box::new(TypeTag::U8))];
    let bytes = vec![5, 0, 0, 0, 0, 0, 0, 0, 1, 2, 0xaa, 0xbb];
    let vs = decode_values(&bytes, &tys).unwrap();
    assert_eq!(vs[0], MoveValue::Int(vec![5, 0, 0, 0, 0, 0, 0, 0]));
    assert_eq!(vs[1], MoveValue::Bool(true));
    assert_eq!(vs[2], MoveValue::Vector(vec![MoveValue::Int(vec![0xaa]), MoveValue::Int(vec![0xbb])]));
}

#[test]
fn view_results_that_do_not_fit_are_refused() {
    assert_eq!(decode_values(&[5, 0, 0], &vec![TypeTag::U64]).unwrap_err(), TxError::DecodeError);
    assert_eq!(decode_values(&[1, 0], &vec![TypeTag::Bool]).unwrap_err(), TxError::DecodeError);
    assert_eq!(decode_values(&[2], &vec![TypeTag::Bool]).unwrap_err(), TxError::DecodeError);
    assert_eq!(decode_values(&[3, 1], &vec![TypeTag::Vector(Box::new(TypeTag::U8))]).unwrap_err(), TxError::DecodeError);
    assert_eq!(decode_values(&[0], &vec![TypeTag::Signer]).unwrap_err(), TxError::DecodeError);
}

#[test]
fn leb128_lengths() {
    assert_eq!(read_uleb128(&[0xc8, 0x01], 0).unwrap(), (200, 2));
    assert_eq!(read_uleb128(&[0x7f], 0).unwrap(), (127, 1));
    assert_eq!(read_uleb128(&[0x80, 0x00], 0).unwrap_err(), TxError::DecodeError);
    assert_eq!(read_uleb128(&[0x80], 0).unwrap_err(), TxError::DecodeError);
}

#[test]
fn encoded_vector_decodes_back() {
    let ty = TypeTag::Vector(Box::new(TypeTag::U16));
    let enc = encode_text("[1, 258]", &ty).unwrap();
    let vs = decode_values(&enc, &vec![ty]).unwrap();
    assert_eq!(vs, vec![MoveValue::Vector(vec![MoveValue::Int(vec![1, 0]), MoveValue::Int(vec![2, 1])])]);
}

#[test]
fn type_text_round_trips() {
    let src = b"  u8,vector< vector<u64> >, 0x1::coin::Coin< 0x1::aptos_coin::AptosCoin ,bool> , signer";
    let first = type_args_text(&parse_type_args(src).unwrap());
    let again = type_args_text(&parse_type_args(&first).unwrap());
    assert_eq!(first, again);
    let one = "0x0000000000000000000000000000000000000000000000000000000000000001";
    let want = format!("u8, vector<vector<u64>>, {one}::coin::Coin<{one}::aptos_coin::AptosCoin, bool>, signer");
    assert_eq!(String::from_utf8(first).unwrap(), want);
}

#[test]
fn nested_vector_literals_keep_their_items() {
    let v = parse_args(b"[[1], [2, 3_u8]], []").unwrap();
    assert_eq!(v.len(), 2);
    match &v[0] {
        Literal::Vector(items) => {
            assert_eq!(items.len(), 2);
            assert_eq!(items[0], Literal::Vector(vec![Literal::Number { digits: b"1".to_vec(), suffix: None }]));
            assert_eq!(
                items[1],
                Literal::Vector(vec![
                    Literal::Number { digits: b"2".to_vec(), suffix: None },
                    Literal::Number { digits: b"3".to_vec(), suffix: Some(1) },
                ])
            );
        }
        _ => panic!("not a vector"),
    }
    assert_eq!(v[1], Literal::Vector(vec![]));
}

#[test]
fn malformed_type_lists_are_refused() {
    assert_eq!(parse_type_args(b"u8,,u64").unwrap_err(), TxError::ParseError);
    assert_eq!(parse_type_args(b"0x1::coin::Coin<>").unwrap_err(), TxError::ParseError);
    assert_eq!(parse_type_args(b"vector<>").unwrap_err(), TxError::ParseError);
    let r = build_entry_function(b"0x1::m::f", b"u9", b"1", &vec![TypeTag::U64]);
    assert_eq!(r.unwrap_err(), TxError::ParseError);
}

#[test]
fn pipeline_names_the_encoding_error() {
    let r = build_entry_function(b"0x1::m::f", b"", b"256_u8", &vec![TypeTag::U8]);
    assert_eq!(r.unwrap_err(), TxError::OverflowError);
    let r = build_entry_function(b"0x1::m::f", b"", b"24_u8", &vec![TypeTag::U64]);
    assert_eq!(r.unwrap_err(), TxError::ParseError);
    let e = build_entry_function(b"0x1::m::f", b"", b"255_u8", &vec![TypeTag::U8]).unwrap();
    assert_eq!(e.args, vec![vec![0xff]]);
}
