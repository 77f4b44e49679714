use sci_chain::aa::B256;
use sci_chain::keychain::{AccountKeychain, AuthorizedKey};
use sci_chain::error::{AccountKeychainError, TempoPrecompileError};
use sci_chain::primitives::Address;
use sci_chain::receipt::{BaseReceipt, CompactReceiptFields, DepositReceipt, DepositReceiptExt, Log, Receipt};
use sci_chain::tx_type::OpTxType;

fn sample_receipt() -> Receipt {
    Receipt {
        status: true,
        cumulative_gas_used: 21_000,
        logs: vec![Log { address: Address::from_bytes([1; 20]), topics: vec![B256 { hi: 0, lo: 9 }], data: vec![1, 2] }],
    }
}

fn sample_deposit() -> DepositReceipt {
    DepositReceipt { inner: sample_receipt(), deposit_nonce: Some(3), deposit_receipt_version: Some(1) }
}

#[test]
fn receipts_round_trip_through_compact_fields() {
    let receipts = vec![
        BaseReceipt::Legacy(sample_receipt()),
        BaseReceipt::Eip2930(sample_receipt()),
        BaseReceipt::Eip1559(sample_receipt()),
        BaseReceipt::Eip7702(sample_receipt()),
        BaseReceipt::Deposit(sample_deposit()),
    ];
    for r in receipts {
        let fields = r.clone().into_compact_fields();
        assert_eq!(BaseReceipt::from_compact_fields(fields), r);
    }
}

#[test]
fn non_deposit_receipts_store_no_deposit_fields() {
    let fields = BaseReceipt::Eip1559(sample_receipt()).into_compact_fields();
    assert_eq!(fields.tx_type, OpTxType::Eip1559);
    assert!(fields.success);
    assert_eq!(fields.cumulative_gas_used, 21_000);
    assert_eq!(fields.deposit_nonce, None);
    assert_eq!(fields.deposit_receipt_version, None);
    let fields = BaseReceipt::Deposit(sample_deposit()).into_compact_fields();
    assert_eq!(fields.deposit_nonce, Some(3));
    assert_eq!(fields.deposit_receipt_version, Some(1));
}

#[test]
fn aa_receipt_fields_read_back_as_eip1559() {
    let fields = CompactReceiptFields {
        tx_type: OpTxType::Aa,
        success: false,
        cumulative_gas_used: 5,
        logs: Vec::new(),
        deposit_nonce: Some(1),
        deposit_receipt_version: None,
    };
    let r = BaseReceipt::from_compact_fields(fields);
    assert_eq!(r, BaseReceipt::Eip1559(Receipt { status: false, cumulative_gas_used: 5, logs: Vec::new() }));
    assert_eq!(r.tx_type(), OpTxType::Eip1559);
    assert!(!r.status());
    assert_eq!(r.cumulative_gas_used(), 5);
}

#[test]
fn deposit_receipt_access() {
    let mut r = BaseReceipt::Deposit(sample_deposit());
    assert_eq!(r.as_deposit_receipt(), Some(&sample_deposit()));
    if let Some(d) = r.as_deposit_receipt_mut() {
        d.deposit_nonce = Some(4);
    }
    assert_eq!(r.as_deposit_receipt().unwrap().deposit_nonce, Some(4));
    assert_eq!(r.as_receipt(), &sample_receipt());

    let mut legacy = BaseReceipt::Legacy(sample_receipt());
    assert!(legacy.as_deposit_receipt().is_none());
    assert!(legacy.as_deposit_receipt_mut().is_none());
}

#[test]
fn authorized_key_word_is_active_checks_expiry_and_revocation() {
    let key = AuthorizedKey { signature_type: 1, expiry: 1_234_567, enforce_limits: true, is_revoked: false };
    assert!(AccountKeychain::authorized_key_word_is_active(Ok(key), 1_000_000));
    assert!(
        !AccountKeychain::authorized_key_word_is_active(Ok(key), 1_234_567),
        "expiry boundary: key expired exactly at `now` is inactive"
    );
    let zero = AuthorizedKey { signature_type: 0, expiry: 0, enforce_limits: false, is_revoked: false };
    assert!(!AccountKeychain::authorized_key_word_is_active(Ok(zero), 0));
    let revoked = AuthorizedKey { signature_type: 0, expiry: u64::MAX, enforce_limits: false, is_revoked: true };
    assert!(!AccountKeychain::authorized_key_word_is_active(Ok(revoked), 0));
    assert!(!AccountKeychain::authorized_key_word_is_active(Err(TempoPrecompileError::OutOfGas), 0));
}

#[test]
fn key_is_active_collapses_business_errors() {
    assert_eq!(AccountKeychain::key_is_active(Ok(())), Ok(true));
    assert_eq!(
        AccountKeychain::key_is_active(Err(TempoPrecompileError::AccountKeychainError(
            AccountKeychainError::UnauthorizedCaller
        ))),
        Ok(false)
    );
    assert_eq!(
        AccountKeychain::key_is_active(Err(TempoPrecompileError::OutOfGas)),
        Err(TempoPrecompileError::OutOfGas)
    );
}

#[test]
fn revoked_key_word_is_inactive() {
    let key = AuthorizedKey { signature_type: 0, expiry: u64::MAX, enforce_limits: false, is_revoked: true };
    assert!(!AccountKeychain::authorized_key_word_is_active(Ok(key), 0));
}
