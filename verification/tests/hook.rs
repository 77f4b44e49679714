use sci_chain::error::{AccountKeychainError, SciAgentStateError, TempoPrecompileError};
use sci_chain::handler::{
    AaBatch, Admission, BatchGas, FrameKind, FrameOutcome, InvalidReason, KeychainSlots, SciHandler, TxRoute,
    DEPOSIT_TRANSACTION_TYPE,
};
use sci_chain::hook::{
    check_not_tripped, check_spending_limits, hook_verdict, keychain_hook_decision, post_execution_deductions, preflight_totals,
    AaCall, HookVerdict, TxKind,
};
use sci_chain::primitives::{Address, U256};

fn hook_address(b: u8) -> Address {
    Address::from_bytes([b; 20])
}

fn transfer_call(token: Address, amount: u64) -> AaCall {
    let mut input = vec![0xa9, 0x05, 0x9c, 0xbb];
    input.extend_from_slice(&[0u8; 12]);
    input.extend_from_slice(&[0x22; 20]);
    input.extend_from_slice(&[0u8; 24]);
    input.extend_from_slice(&amount.to_be_bytes());
    AaCall { to: TxKind::Call(token), value: U256::zero(), input }
}

fn value_call(to: Address, value: u64) -> AaCall {
    AaCall { to: TxKind::Call(to), value: U256::from_u64(value), input: Vec::new() }
}

#[test]
fn in_limit_batch_passes_and_deducts_the_amount() {
    let root = hook_address(0x99);
    let token = hook_address(0xaa);
    let calls = vec![transfer_call(token, 400)];
    let totals = preflight_totals(root, &calls, U256::zero());
    assert_eq!(totals, vec![(token, U256::from_u64(400))]);
    assert_eq!(check_spending_limits(true, &totals, &vec![U256::from_u64(1_000)]), Ok(()));
    let deductions = post_execution_deductions(root, &calls, U256::zero());
    assert_eq!(deductions, vec![(token, U256::from_u64(400))]);
}

#[test]
fn over_limit_batch_is_rejected() {
    let root = hook_address(0x99);
    let token = hook_address(0xaa);
    let calls = vec![transfer_call(token, 150)];
    let totals = preflight_totals(root, &calls, U256::zero());
    assert_eq!(check_spending_limits(false, &totals, &Vec::new()), Ok(()));
    let res = check_spending_limits(true, &totals, &vec![U256::from_u64(100)]);
    assert_eq!(
        res,
        Err(TempoPrecompileError::AccountKeychainError(AccountKeychainError::SpendingLimitExceeded))
    );
    assert!(matches!(hook_verdict(res), HookVerdict::Reject(_)));
}

#[test]
fn preflight_sums_per_token_and_reserves_gas_on_the_sentinel() {
    let root = hook_address(0x99);
    let token = hook_address(0xaa);
    let calls = vec![
        transfer_call(token, 60),
        value_call(hook_address(0x01), 5),
        transfer_call(token, 40),
        value_call(hook_address(0x02), 7),
    ];
    let totals = preflight_totals(root, &calls, U256::from_u64(1_000));
    assert_eq!(
        totals,
        vec![(token, U256::from_u64(100)), (Address::zero(), U256::from_u64(1_012))]
    );
}

#[test]
fn post_execution_puts_sentinel_total_first() {
    let root = hook_address(0x99);
    let token = hook_address(0xaa);
    let calls = vec![value_call(hook_address(0x01), 5), transfer_call(token, 40)];
    let deductions = post_execution_deductions(root, &calls, U256::from_u64(25));
    assert_eq!(
        deductions,
        vec![(Address::zero(), U256::from_u64(30)), (token, U256::from_u64(40))]
    );
    // Nothing to meter gives no deduction at all.
    assert!(post_execution_deductions(root, &Vec::new(), U256::zero()).is_empty());
}

#[test]
fn tripped_key_is_rejected_with_its_key() {
    let key = hook_address(0x21);
    assert_eq!(check_not_tripped(key, false), Ok(()));
    let err = check_not_tripped(key, true).unwrap_err();
    assert_eq!(err, TempoPrecompileError::SciAgentStateError(SciAgentStateError::KeyTripped(key)));
    assert_eq!(hook_verdict(Err(err.clone())), HookVerdict::Reject(err));
}

#[test]
fn system_errors_fault_the_hook() {
    assert_eq!(hook_verdict(Ok(())), HookVerdict::Pass);
    assert_eq!(
        hook_verdict(Err(TempoPrecompileError::OutOfGas)),
        HookVerdict::Fault(TempoPrecompileError::OutOfGas)
    );
}

#[test]
fn fee_payer_must_be_the_root() {
    let root = hook_address(0x99);
    assert!(SciHandler::check_fee_payer(Some(root), Some(root)).is_ok());
    assert!(SciHandler::check_fee_payer(Some(root), None).is_ok());
    assert!(SciHandler::check_fee_payer(None, None).is_ok());
    assert!(SciHandler::check_fee_payer(Some(root), Some(hook_address(0x01))).is_err());
    assert!(SciHandler::check_fee_payer(None, Some(root)).is_err());
    assert_eq!(
        SciHandler::check_fee_payer(None, Some(root)),
        Err("AA fee_payer must equal root (sponsored gas is authorized via the keychain on the root account)".to_string())
    );
}

#[test]
fn signer_paying_for_itself_is_not_sponsored() {
    let signer = hook_address(0x10);
    assert_eq!(SciHandler::effective_fee_payer(Some(signer), signer), None);
    assert_eq!(SciHandler::effective_fee_payer(Some(hook_address(0x99)), signer), Some(hook_address(0x99)));
    assert_eq!(SciHandler::effective_fee_payer(None, signer), None);
}

#[test]
fn sponsor_reconciliation_nets_the_signer_to_zero() {
    let signer = hook_address(0x10);
    let payer = hook_address(0x99);
    let back = SciHandler::reconcile_prefund(signer, payer, U256::from_u64(100), U256::from_u64(130));
    assert_eq!(back.from, signer);
    assert_eq!(back.to, payer);
    assert_eq!(back.amount, U256::from_u64(30));
    let cover = SciHandler::reconcile_prefund(signer, payer, U256::from_u64(100), U256::from_u64(90));
    assert_eq!(cover.from, payer);
    assert_eq!(cover.to, signer);
    assert_eq!(cover.amount, U256::from_u64(10));
    assert_eq!(SciHandler::sponsor_refund(U256::from_u64(100), U256::from_u64(90)), U256::zero());
    assert_eq!(SciHandler::sponsor_refund(U256::from_u64(100), U256::from_u64(130)), U256::from_u64(30));
    assert_eq!(SciHandler::prefund_amount(U256::max_value(), U256::from_u64(1)), U256::max_value());
}

#[test]
fn transactions_are_routed_by_type_and_root() {
    let root = hook_address(0x99);
    assert_eq!(SciHandler::route_tx(DEPOSIT_TRANSACTION_TYPE, Some(root), true), TxRoute::Deposit);
    assert_eq!(SciHandler::route_tx(0x76, Some(root), true), TxRoute::Agent(root));
    assert_eq!(SciHandler::route_tx(0x76, None, true), TxRoute::Plain);
    assert_eq!(SciHandler::route_tx(2, Some(root), false), TxRoute::Plain);
}

#[test]
fn sponsored_gas_is_reserved_and_metered_at_max_fee() {
    let root = hook_address(0x99);
    assert_eq!(
        SciHandler::gas_reservation(root, Some(root), 21_000, 1_000_000_000),
        U256::from_u64(21_000_000_000_000)
    );
    assert_eq!(SciHandler::gas_reservation(root, None, 21_000, 1_000_000_000), U256::zero());

    // A reverting sponsored batch is still charged its gas.
    let plan = SciHandler::post_execution_plan(Some(root), Some(root), false, 25, 1_000_000_000, vec![
        value_call(hook_address(0x01), 5),
    ]);
    let (a, calls, gas) = plan.expect("gas is charged");
    assert_eq!(a, root);
    assert!(calls.is_empty());
    assert_eq!(gas, U256::from_u64(25_000_000_000));

    // A reverting unsponsored batch meters nothing.
    assert!(SciHandler::post_execution_plan(Some(root), None, false, 25, 1, Vec::new()).is_none());
    // No root, no metering.
    assert!(SciHandler::post_execution_plan(None, None, true, 25, 1, Vec::new()).is_none());
}

#[test]
fn batch_gas_threads_leftovers_and_ends_on_failure() {
    let mut batch = AaBatch::start(100_000, 21_000);
    assert_eq!(batch.remaining_gas, 79_000);
    assert_eq!(batch.on_frame(FrameOutcome::Success, 70_000, 100), None);
    assert_eq!(batch.on_frame(FrameOutcome::Success, 60_000, 50), None);
    assert_eq!(batch.finish(), BatchGas { limit: 100_000, remaining: 60_000, refunded: 150 });
    assert_eq!(
        batch.on_frame(FrameOutcome::Revert, 55_000, 10),
        Some(BatchGas { limit: 100_000, remaining: 55_000, refunded: 0 })
    );
    assert_eq!(
        batch.on_frame(FrameOutcome::Halt, 55_000, 10),
        Some(BatchGas { limit: 100_000, remaining: 0, refunded: 0 })
    );
    assert_eq!(AaBatch::start(10, 21_000).remaining_gas, 0);
    assert_eq!(SciHandler::finalize_batch_gas(5, 1, -3).refunded, 0);
    assert_eq!(SciHandler::new(), SciHandler);
}

#[test]
fn keychain_hook_checks_run_in_order() {
    let key = hook_address(0x44);
    let over = TempoPrecompileError::AccountKeychainError(AccountKeychainError::spending_limit_exceeded());
    let tripped = TempoPrecompileError::SciAgentStateError(SciAgentStateError::key_tripped(key));
    // An inactive key is unauthorized before anything else is looked at.
    assert_eq!(
        keychain_hook_decision(Ok(false), key, Ok(true), Err(over.clone()), Err(over.clone())),
        HookVerdict::Unauthorized
    );
    // A failed authorization probe is a fault.
    assert_eq!(
        keychain_hook_decision(Err(TempoPrecompileError::OutOfGas), key, Ok(false), Ok(()), Ok(())),
        HookVerdict::Fault(TempoPrecompileError::OutOfGas)
    );
    // The circuit breaker comes before scope and limits.
    assert_eq!(
        keychain_hook_decision(Ok(true), key, Ok(true), Err(over.clone()), Err(over.clone())),
        HookVerdict::Reject(tripped)
    );
    // Scope comes before limits; a system error there is a fault.
    assert_eq!(
        keychain_hook_decision(Ok(true), key, Ok(false), Err(TempoPrecompileError::under_overflow()), Err(over.clone())),
        HookVerdict::Fault(TempoPrecompileError::under_overflow())
    );
    // Limits decide last.
    assert_eq!(
        keychain_hook_decision(Ok(true), key, Ok(false), Ok(()), Err(over.clone())),
        HookVerdict::Reject(over)
    );
    assert_eq!(keychain_hook_decision(Ok(true), key, Ok(false), Ok(()), Ok(())), HookVerdict::Pass);
}

#[test]
fn validation_is_planned_before_any_transfer() {
    let root = hook_address(0x11);
    let signer = hook_address(0x22);
    assert_eq!(
        SciHandler::plan_validation(0x76, signer, Some(root), Some(signer), true, 100, 7),
        Err(InvalidReason::FeePayerNotRoot)
    );
    let plan = SciHandler::plan_validation(0x76, signer, Some(root), Some(root), true, 100, 7).unwrap();
    assert_eq!(plan.sponsor, Some(root));
    assert_eq!(plan.route, TxRoute::Agent(root));
    assert_eq!(plan.gas_reservation, U256::from_u64(700));
    let plan = SciHandler::plan_validation(0x76, signer, Some(root), None, true, 100, 7).unwrap();
    assert_eq!(plan.sponsor, None);
    assert_eq!(plan.gas_reservation, U256::from_u64(0));
    let plan = SciHandler::plan_validation(DEPOSIT_TRANSACTION_TYPE, signer, None, None, false, 100, 7).unwrap();
    assert_eq!(plan.route, TxRoute::Deposit);
    assert_eq!(plan.gas_reservation, U256::from_u64(0));
}

#[test]
fn validation_maps_the_hook_verdict_and_seeds_the_keychain() {
    let root = hook_address(0x11);
    let signer = hook_address(0x22);
    let zero = Address::zero();
    let seeded = KeychainSlots { tx_origin: signer, transaction_key: zero };
    assert_eq!(SciHandler::finish_validation(TxRoute::Deposit, signer, None), (Admission::Proceed, seeded));
    assert_eq!(SciHandler::finish_validation(TxRoute::Plain, signer, None), (Admission::Proceed, seeded));
    assert_eq!(
        SciHandler::finish_validation(TxRoute::Agent(root), signer, Some(HookVerdict::Pass)),
        (Admission::Proceed, KeychainSlots { tx_origin: signer, transaction_key: signer })
    );
    assert_eq!(
        SciHandler::finish_validation(TxRoute::Agent(root), signer, Some(HookVerdict::Unauthorized)),
        (Admission::Invalid(InvalidReason::Unauthorized), seeded)
    );
    let tripped = TempoPrecompileError::SciAgentStateError(SciAgentStateError::key_tripped(signer));
    assert_eq!(
        SciHandler::finish_validation(TxRoute::Agent(root), signer, Some(HookVerdict::Reject(tripped.clone()))),
        (Admission::Invalid(InvalidReason::Rejected(tripped)), seeded)
    );
    assert_eq!(
        SciHandler::finish_validation(TxRoute::Agent(root), signer, Some(HookVerdict::Fault(TempoPrecompileError::OutOfGas))),
        (Admission::Fault(TempoPrecompileError::OutOfGas), seeded)
    );
}

#[test]
fn batch_frames_run_as_root_with_the_gas_left() {
    let root = hook_address(0x11);
    let signer = hook_address(0x22);
    let target = hook_address(0x33);
    let mut batch = AaBatch::start(100_000, 21_000);
    let call = AaCall { to: TxKind::Call(target), value: U256::from_u64(5), input: vec![1, 2, 3] };
    let frame = batch.frame_for(Some(root), signer, &call);
    assert_eq!(frame.caller, root);
    assert_eq!(frame.kind, FrameKind::Call(target));
    assert_eq!(frame.value, U256::from_u64(5));
    assert_eq!(frame.input, vec![1, 2, 3]);
    assert_eq!(frame.gas_limit, 79_000);
    assert_eq!(batch.on_frame(FrameOutcome::Success, 60_000, 0), None);
    let create = AaCall { to: TxKind::Create, value: U256::from_u64(0), input: vec![] };
    let frame = batch.frame_for(None, signer, &create);
    assert_eq!(frame.caller, signer);
    assert_eq!(frame.kind, FrameKind::Create);
    assert_eq!(frame.gas_limit, 60_000);
}
