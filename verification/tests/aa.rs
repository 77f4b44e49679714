use sci_chain::aa::{AccessListItem, BaseAaTransaction, Call, B256};
use sci_chain::hook::TxKind;
use sci_chain::primitives::{Address, U256};
use sci_chain::tx_type::{mint_from_compact, mint_to_compact, OpTxType, SCI_AA_TX_TYPE_ID};

fn aa_address(b: u8) -> Address {
    Address::from_bytes([b; 20])
}

fn sample() -> BaseAaTransaction {
    BaseAaTransaction {
        chain_id: 42001,
        nonce: 7,
        max_priority_fee_per_gas: 1_000_000_000,
        max_fee_per_gas: 2_000_000_000,
        gas_limit: 210_000,
        calls: vec![
            Call { to: TxKind::Call(aa_address(0x70)), value: U256::from_u64(1), input: vec![0xde, 0xad, 0xbe, 0xef] },
            Call { to: TxKind::Call(aa_address(0x11)), value: U256::zero(), input: Vec::new() },
        ],
        access_list: vec![AccessListItem { address: aa_address(0x33), storage_keys: vec![B256 { hi: 1, lo: 2 }] }],
        fee_payer: Some(aa_address(0xf3)),
        root: Some(aa_address(0x99)),
    }
}

#[test]
fn ty_is_0x76() {
    assert_eq!(BaseAaTransaction::tx_type(), 0x76);
    assert_eq!(sample().ty(), 0x76);
    assert_eq!(OpTxType::Aa.ty(), SCI_AA_TX_TYPE_ID);
}

#[test]
fn transaction_interface_reports_the_first_call() {
    let tx = sample();
    assert_eq!(tx.chain_id(), Some(42001));
    assert_eq!(tx.nonce(), 7);
    assert_eq!(tx.gas_limit(), 210_000);
    assert_eq!(tx.gas_price(), None);
    assert_eq!(tx.max_fee_per_gas(), 2_000_000_000);
    assert_eq!(tx.max_priority_fee_per_gas(), Some(1_000_000_000));
    assert_eq!(tx.max_fee_per_blob_gas(), None);
    assert_eq!(tx.priority_fee_or_price(), 1_000_000_000);
    assert!(tx.is_dynamic_fee());
    assert_eq!(tx.kind(), TxKind::Call(aa_address(0x70)));
    assert!(!tx.is_create());
    assert_eq!(tx.input(), &[0xde, 0xad, 0xbe, 0xef]);
    assert_eq!(tx.access_list().unwrap().len(), 1);
}

#[test]
fn empty_batch_is_a_create_with_no_input() {
    let mut tx = sample();
    tx.calls.clear();
    assert_eq!(tx.kind(), TxKind::Create);
    assert!(tx.is_create());
    assert!(tx.input().is_empty());
    assert_eq!(tx.value(), U256::zero());
}

#[test]
fn value_sums_calls_with_saturation() {
    let mut tx = sample();
    tx.calls.push(Call { to: TxKind::Create, value: U256::from_u64(41), input: Vec::new() });
    assert_eq!(tx.value(), U256::from_u64(42));
    tx.calls.push(Call { to: TxKind::Create, value: U256::max_value(), input: Vec::new() });
    assert_eq!(tx.value(), U256::max_value());
}

#[test]
fn effective_gas_price_follows_eip1559() {
    let tx = sample();
    assert_eq!(tx.effective_gas_price(None), 2_000_000_000);
    // tip above the priority fee: base + priority
    assert_eq!(tx.effective_gas_price(Some(500_000_000)), 1_500_000_000);
    // tip below the priority fee: the max fee
    assert_eq!(tx.effective_gas_price(Some(1_500_000_000)), 2_000_000_000);
    // base fee above the max fee: the max fee
    assert_eq!(tx.effective_gas_price(Some(3_000_000_000)), 2_000_000_000);
}

#[test]
fn set_chain_id_replaces_only_the_chain_id() {
    let mut tx = sample();
    tx.set_chain_id(1);
    let mut expected = sample();
    expected.chain_id = 1;
    assert_eq!(tx, expected);
}

#[test]
fn eip1559_view_runs_only_the_first_call() {
    let tx = sample();
    let eip = tx.to_eip1559_first_call();
    assert_eq!(eip.chain_id, 42001);
    assert_eq!(eip.nonce, 7);
    assert_eq!(eip.gas_limit, 210_000);
    assert_eq!(eip.max_fee_per_gas, 2_000_000_000);
    assert_eq!(eip.max_priority_fee_per_gas, 1_000_000_000);
    assert_eq!(eip.to, TxKind::Call(aa_address(0x70)));
    assert_eq!(eip.value, U256::from_u64(1));
    assert_eq!(eip.input, vec![0xde, 0xad, 0xbe, 0xef]);
    assert_eq!(eip.access_list, tx.access_list);

    let mut empty = sample();
    empty.calls.clear();
    let eip = empty.to_eip1559_first_call();
    assert_eq!(eip.to, TxKind::Create);
    assert_eq!(eip.value, U256::zero());
    assert!(eip.input.is_empty());
}

#[test]
fn compact_type_identifiers_round_trip() {
    for t in [OpTxType::Legacy, OpTxType::Eip2930, OpTxType::Eip1559, OpTxType::Eip7702, OpTxType::Deposit, OpTxType::Aa] {
        let mut buf = Vec::new();
        let id = t.to_compact(&mut buf);
        buf.push(0xEE);
        assert!(OpTxType::is_known_compact(&buf, id));
        let (decoded, read) = OpTxType::from_compact(&buf, id);
        assert_eq!(decoded, t);
        assert_eq!(read, buf.len() - 1);
    }
    let mut buf = Vec::new();
    assert_eq!(OpTxType::Aa.to_compact(&mut buf), 3);
    assert_eq!(buf, vec![0x76]);
    assert!(!OpTxType::is_known_compact(&[0x05], 3));
    assert!(!OpTxType::is_known_compact(&[], 3));
    assert!(!OpTxType::is_known_compact(&[], 4));
}

#[test]
fn compact_mint_omits_zero() {
    assert_eq!(mint_to_compact(0), None);
    assert_eq!(mint_to_compact(5), Some(5));
    assert_eq!(mint_from_compact(None), 0);
    assert_eq!(mint_from_compact(mint_to_compact(5)), 5);
}

#[test]
fn aa_transactions_carry_no_blobs() {
    assert!(sample().blob_versioned_hashes().is_none());
}
