use sci_chain::aa::{AccessListItem, BaseAaTransaction, Call, B256};
use sci_chain::aa_codec::{decode_opt_address, RlpError};
use sci_chain::hook::TxKind;
use sci_chain::primitives::{Address, U256};

fn rlp_address(b: u8) -> Address {
    Address::from_bytes([b; 20])
}

fn rlp_sample() -> BaseAaTransaction {
    BaseAaTransaction {
        chain_id: 42001,
        nonce: 7,
        max_priority_fee_per_gas: 1_000_000_000,
        max_fee_per_gas: 2_000_000_000,
        gas_limit: 210_000,
        calls: vec![
            Call { to: TxKind::Call(rlp_address(0x70)), value: U256::from_u64(1), input: vec![0xde, 0xad, 0xbe, 0xef] },
            Call { to: TxKind::Call(rlp_address(0x11)), value: U256::zero(), input: Vec::new() },
        ],
        access_list: Vec::new(),
        fee_payer: Some(rlp_address(0xf3)),
        root: Some(rlp_address(0x99)),
    }
}

#[test]
fn rlp_fields_roundtrip_with_fee_payer() {
    let tx = rlp_sample();
    let mut buf = Vec::new();
    tx.rlp_encode_fields(&mut buf);
    assert_eq!(buf.len(), tx.rlp_encoded_fields_length());

    let (decoded, slice) = BaseAaTransaction::rlp_decode_fields(buf.as_slice()).unwrap();
    assert!(slice.is_empty());
    assert_eq!(decoded, tx);
}

#[test]
fn rlp_fields_roundtrip_without_fee_payer() {
    let mut tx = rlp_sample();
    tx.fee_payer = None;
    tx.root = None;
    let mut buf = Vec::new();
    tx.rlp_encode_fields(&mut buf);
    assert_eq!(buf.len(), tx.rlp_encoded_fields_length());

    let (decoded, slice) = BaseAaTransaction::rlp_decode_fields(buf.as_slice()).unwrap();
    assert!(slice.is_empty());
    assert_eq!(decoded, tx);
    assert_eq!(decoded.fee_payer, None);
    assert_eq!(decoded.root, None);
}

#[test]
fn call_rlp_roundtrip() {
    let call = Call { to: TxKind::Call(rlp_address(0x22)), value: U256::from_u64(99), input: vec![1, 2, 3] };
    let mut buf = Vec::new();
    call.encode(&mut buf);
    let (decoded, _) = Call::decode(buf.as_slice()).unwrap();
    assert_eq!(decoded, call);
}

#[test]
fn call_encoding_is_the_list_of_its_fields() {
    let call = Call { to: TxKind::Call(rlp_address(0x22)), value: U256::from_u64(99), input: vec![1, 2, 3] };
    let mut buf = Vec::new();
    call.encode(&mut buf);
    let mut expected = vec![0xda, 0x94];
    expected.extend_from_slice(&[0x22; 20]);
    expected.extend_from_slice(&[0x63, 0x83, 1, 2, 3]);
    assert_eq!(buf, expected);

    let create = Call { to: TxKind::Create, value: U256::from_u64(0x1234), input: Vec::new() };
    let mut buf = Vec::new();
    create.encode(&mut buf);
    assert_eq!(buf, vec![0xc5, 0x80, 0x82, 0x12, 0x34, 0x80]);
}

#[test]
fn call_encoding_matches_alloy_rlp_for_its_parts() {
    let call = Call { to: TxKind::Create, value: U256::from_u128(u128::MAX), input: vec![0x7f] };
    let mut buf = Vec::new();
    call.encode(&mut buf);
    let mut payload = vec![0x80];
    alloy_rlp::Encodable::encode(&u128::MAX, &mut payload);
    alloy_rlp::Encodable::encode(&[0x7fu8][..], &mut payload);
    let mut expected = Vec::new();
    alloy_rlp::Header { list: true, payload_length: payload.len() }.encode(&mut expected);
    expected.extend_from_slice(&payload);
    assert_eq!(buf, expected);
}

#[test]
fn access_list_and_long_input_round_trip() {
    let mut tx = rlp_sample();
    tx.access_list = vec![
        AccessListItem { address: rlp_address(0x33), storage_keys: vec![B256 { hi: 1, lo: 2 }, B256 { hi: u128::MAX, lo: 0 }] },
        AccessListItem { address: rlp_address(0x44), storage_keys: Vec::new() },
    ];
    tx.calls.push(Call { to: TxKind::Create, value: U256::max_value(), input: vec![0xab; 300] });
    let mut buf = Vec::new();
    tx.rlp_encode_fields(&mut buf);
    buf.extend_from_slice(&[9, 9]);
    let (decoded, rest) = BaseAaTransaction::rlp_decode_fields(buf.as_slice()).unwrap();
    assert_eq!(decoded, tx);
    assert_eq!(rest, &[9, 9]);
}

#[test]
fn signing_payload_is_type_byte_then_field_list() {
    let tx = rlp_sample();
    let mut fields = Vec::new();
    tx.rlp_encode_fields(&mut fields);
    let mut signing = Vec::new();
    tx.encode_for_signing(&mut signing);
    assert_eq!(signing[0], 0x76);
    let mut header = Vec::new();
    alloy_rlp::Header { list: true, payload_length: fields.len() }.encode(&mut header);
    assert_eq!(&signing[1..1 + header.len()], header.as_slice());
    assert_eq!(&signing[1 + header.len()..], fields.as_slice());
    assert_eq!(tx.payload_len_for_signature(), signing.len());
}

#[test]
fn truncated_or_malformed_fields_are_rejected() {
    let tx = rlp_sample();
    let mut buf = Vec::new();
    tx.rlp_encode_fields(&mut buf);
    buf.pop();
    assert!(BaseAaTransaction::rlp_decode_fields(buf.as_slice()).is_err());
    // A chain id with a leading zero byte is not canonical.
    assert!(matches!(
        BaseAaTransaction::rlp_decode_fields(&[0x82, 0x00, 0x01]),
        Err(RlpError::Codec(_))
    ));
    assert!(matches!(BaseAaTransaction::rlp_decode_fields(&[]), Err(RlpError::Codec(_))));
}

#[test]
fn call_with_extra_field_is_a_length_mismatch() {
    // A list holding a target, a value, an input and one more byte.
    let buf = [0xc4, 0x80, 0x01, 0x80, 0x05];
    assert_eq!(
        Call::decode(&buf),
        Err(RlpError::ListLengthMismatch { expected: 4, got: 3 })
    );
}

#[test]
fn address_of_wrong_length_is_rejected() {
    let mut buf = vec![0x93];
    buf.extend_from_slice(&[0x11; 19]);
    assert_eq!(decode_opt_address(&buf), Err(RlpError::UnexpectedLength));
    assert_eq!(decode_opt_address(&[0x80, 7]), Ok((None, &[7u8][..])));
}
