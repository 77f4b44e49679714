use sci_chain::classify::classify_token_call;
use sci_chain::primitives::{Address, U256};

fn repeat_address(b: u8) -> Address {
    Address::from_bytes([b; 20])
}

fn root_address() -> Address {
    repeat_address(0x99)
}

fn address_word(b: u8) -> Vec<u8> {
    let mut w = vec![0u8; 12];
    w.extend_from_slice(&[b; 20]);
    w
}

fn uint_word(v: u128) -> Vec<u8> {
    let mut w = vec![0u8; 16];
    w.extend_from_slice(&v.to_be_bytes());
    w
}

fn calldata(selector: [u8; 4], words: &[Vec<u8>]) -> Vec<u8> {
    let mut out = selector.to_vec();
    for w in words {
        out.extend_from_slice(w);
    }
    out
}

const TRANSFER: [u8; 4] = [0xa9, 0x05, 0x9c, 0xbb];
const APPROVE: [u8; 4] = [0x09, 0x5e, 0xa7, 0xb3];
const TRANSFER_FROM: [u8; 4] = [0x23, 0xb8, 0x72, 0xdd];
const TRANSFER_WITH_MEMO: [u8; 4] = [0x95, 0x77, 0x7d, 0x59];

#[test]
fn classify_erc20_transfer_extracts_amount() {
    let token = repeat_address(0xaa);
    let amount = U256::from_u64(1_000_000);
    let data = calldata(TRANSFER, &[address_word(0xbb), uint_word(1_000_000)]);

    let (out_token, out_amount) = classify_token_call(root_address(), token, &data).expect("classified");
    assert_eq!(out_token, token);
    assert_eq!(out_amount, amount);
}

#[test]
fn classify_erc20_approve_extracts_amount_pessimistically() {
    let token = repeat_address(0xaa);
    let amount = U256::from_u128(u128::MAX);
    let data = calldata(APPROVE, &[address_word(0xcc), uint_word(u128::MAX)]);

    let (out_token, out_amount) = classify_token_call(root_address(), token, &data).expect("classified");
    assert_eq!(out_token, token);
    assert_eq!(out_amount, amount, "full approve amount, no max-min capping");
}

#[test]
fn classify_sci20_transfer_with_memo_extracts_amount() {
    let token = repeat_address(0xaa);
    let amount = U256::from_u64(50);
    let data = calldata(TRANSFER_WITH_MEMO, &[address_word(0xbb), uint_word(50), vec![0xff; 32]]);

    let (out_token, out_amount) = classify_token_call(root_address(), token, &data).expect("classified");
    assert_eq!(out_token, token);
    assert_eq!(out_amount, amount);
}

#[test]
fn classify_transferfrom_from_root_is_metered() {
    let token = repeat_address(0xaa);
    let amount = U256::from_u64(100);
    let data = calldata(TRANSFER_FROM, &[address_word(0x99), address_word(0x22), uint_word(100)]);

    let (out_token, out_amount) =
        classify_token_call(root_address(), token, &data).expect("from == root is metered");
    assert_eq!(out_token, token);
    assert_eq!(out_amount, amount);
}

#[test]
fn classify_transferfrom_third_party_returns_none() {
    let token = repeat_address(0xaa);
    let data = calldata(TRANSFER_FROM, &[address_word(0x11), address_word(0x22), uint_word(100)]);

    assert!(classify_token_call(root_address(), token, &data).is_none());
}

#[test]
fn classify_unknown_selector_returns_none() {
    let token = repeat_address(0xaa);
    let data = vec![0x12, 0x34, 0x56, 0x78, 0xff];
    assert!(classify_token_call(root_address(), token, &data).is_none());
}

#[test]
fn classify_short_calldata_returns_none() {
    assert!(classify_token_call(root_address(), Address::zero(), &[]).is_none());
    assert!(classify_token_call(root_address(), Address::zero(), &[0x12, 0x34]).is_none());
}

#[test]
fn classify_truncated_arguments_return_none() {
    let token = repeat_address(0xaa);
    let mut data = calldata(TRANSFER, &[address_word(0xbb), uint_word(5)]);
    data.pop();
    assert!(classify_token_call(root_address(), token, &data).is_none());
    let memo = calldata(TRANSFER_WITH_MEMO, &[address_word(0xbb), uint_word(5)]);
    assert!(classify_token_call(root_address(), token, &memo).is_none());
}

#[test]
fn classify_reads_full_256_bit_amounts() {
    let token = repeat_address(0xaa);
    let mut amount_word = vec![0x01];
    amount_word.extend_from_slice(&[0u8; 31]);
    let data = calldata(TRANSFER, &[address_word(0xbb), amount_word]);
    let (_, out_amount) = classify_token_call(root_address(), token, &data).expect("classified");
    assert_eq!(out_amount, U256::from_parts(1u128 << 120, 0));
}
