use sci_chain::gas::{saturating_add_i64, GasTracker, GasTrackerError};
use sci_chain::storage_gas::{journal_load_error, CheckpointStack, JournalCheckpoint, JournalLoadError, StorageGasMeter};
use sci_chain::dispatch::TempoHardfork;
use sci_chain::error::TempoPrecompileError;

#[test]
fn fresh_tracker_has_everything_remaining() {
    let t = GasTracker::new(1_000, 1_000, 7);
    assert_eq!(t.limit(), 1_000);
    assert_eq!(t.gas_limit(), 1_000);
    assert_eq!(t.gas_used(), 0);
    assert_eq!(t.remaining(), 1_000);
    assert_eq!(t.reservoir(), 7);
    assert_eq!(t.state_gas_used(), 0);
    assert_eq!(t.gas_refunded(), 0);
}

#[test]
fn deduct_gas_within_limit_and_out_of_gas() {
    let mut t = GasTracker::new(100, 100, 0);
    assert_eq!(t.deduct_gas(60), Ok(()));
    assert_eq!(t.gas_used(), 60);
    assert_eq!(t.remaining(), 40);
    assert_eq!(t.deduct_gas(41), Err(GasTrackerError::OutOfGas));
    assert_eq!(t.gas_used(), 60);
    assert_eq!(t.deduct_gas(40), Ok(()));
    assert_eq!(t.remaining(), 0);
    assert_eq!(t.deduct_gas(u64::MAX), Err(GasTrackerError::OutOfGas));
}

#[test]
fn record_regular_cost_reports_success() {
    let mut t = GasTracker::new(10, 10, 0);
    assert!(t.record_regular_cost(10));
    assert!(!t.record_regular_cost(1));
    assert_eq!(t.gas_used(), 10);
}

#[test]
fn state_gas_is_never_charged() {
    let mut t = GasTracker::new(10, 10, 0);
    assert_eq!(t.deduct_state_gas(5), Ok(()));
    assert!(t.record_state_cost(5));
    assert_eq!(t.state_gas_used(), 0);
    assert_eq!(t.state_gas_spent(), 0);
    assert_eq!(t.gas_used(), 0);
}

#[test]
fn refunds_saturate() {
    let mut t = GasTracker::new(10, 10, 0);
    t.record_refund(i64::MAX);
    t.refund_gas(5);
    assert_eq!(t.refunded(), i64::MAX);
    t.refund_gas(i64::MIN);
    assert_eq!(t.gas_refunded(), -1);
    assert_eq!(saturating_add_i64(i64::MIN, -1), i64::MIN);
}

#[test]
fn storage_meter_charges_access_after_t4_before_load() {
    let mut m = StorageGasMeter::new(10_000, 0, TempoHardfork::T4, false);
    assert_eq!(m.before_access(100, 2_000), Ok(false));
    assert_eq!(m.gas_used(), 100);
    assert_eq!(m.after_access(100, 2_000, true), Ok(()));
    assert_eq!(m.gas_used(), 2_100);
}

#[test]
fn storage_meter_charges_access_before_t4_after_load() {
    let mut m = StorageGasMeter::new(10_000, 0, TempoHardfork::T3, false);
    assert_eq!(m.before_access(100, 2_000), Ok(false));
    assert_eq!(m.gas_used(), 0);
    assert_eq!(m.after_access(100, 2_000, false), Ok(()));
    assert_eq!(m.gas_used(), 100);
}

#[test]
fn storage_meter_skips_cold_load_it_cannot_pay() {
    let mut m = StorageGasMeter::new(1_000, 0, TempoHardfork::T5, true);
    assert_eq!(m.before_access(100, 2_000), Ok(true));
    assert!(m.is_static());
    assert_eq!(m.spec(), TempoHardfork::T5);
    assert_eq!(m.gas_limit(), 1_000);
}

#[test]
fn storage_meter_out_of_gas_and_events() {
    let mut m = StorageGasMeter::new(500, 0, TempoHardfork::T5, false);
    assert_eq!(m.emit_event(375, 100), Ok(()));
    assert_eq!(m.gas_used(), 475);
    assert_eq!(m.emit_event(375, 100), Err(TempoPrecompileError::OutOfGas));
    assert_eq!(m.gas_used(), 475);
    assert!(m.emit_event(u64::MAX, 1).is_err());
    assert_eq!(m.transient_access(25), Ok(()));
    assert_eq!(m.deduct_gas(1), Err(TempoPrecompileError::OutOfGas));
}

#[test]
fn storage_meter_store_charges_and_refunds() {
    let mut m = StorageGasMeter::new(50_000, 0, TempoHardfork::T5, false);
    assert_eq!(m.after_store(20_000, 4_800), Ok(()));
    assert_eq!(m.gas_used(), 20_000);
    assert_eq!(m.gas_refunded(), 4_800);
    m.refund_gas(-800);
    assert_eq!(m.gas_refunded(), 4_000);
    assert_eq!(m.state_gas_used(), 0);
}

#[test]
fn journal_errors_map_to_precompile_errors() {
    assert_eq!(journal_load_error(JournalLoadError::ColdLoadSkipped), TempoPrecompileError::OutOfGas);
}

#[test]
fn code_deposit_and_created_code_charges() {
    let mut m = StorageGasMeter::new(100_000, 0, TempoHardfork::T5, false);
    assert_eq!(m.charge_code_deposit(200), Ok(()));
    assert_eq!(m.gas_used(), 200);
    // Without EIP-8037 accounting nothing more is charged.
    assert_eq!(m.charge_created_code(false, true, 32_000, 30), Ok(()));
    assert_eq!(m.gas_used(), 200);
    // With it, a deployment to an empty account is charged as a CREATE.
    assert_eq!(m.charge_created_code(true, true, 32_000, 30), Ok(()));
    assert_eq!(m.gas_used(), 32_230);
    assert_eq!(m.charge_created_code(true, false, 32_000, 30), Ok(()));
    assert_eq!(m.gas_used(), 32_230);
    assert_eq!(m.charge_created_code(true, true, 100_000, 0), Err(TempoPrecompileError::OutOfGas));
}

#[test]
fn checkpoints_resolve_innermost_first() {
    let outer = JournalCheckpoint { journal_i: 1, log_i: 0 };
    let inner = JournalCheckpoint { journal_i: 4, log_i: 2 };
    let mut stack = CheckpointStack::new();
    assert!(!stack.is_top(&outer));
    stack.track_checkpoint(&outer);
    stack.track_checkpoint(&inner);
    assert!(stack.is_top(&inner));
    assert!(!stack.is_top(&outer));
    stack.assert_lifo(&inner);
    assert!(stack.is_top(&outer));
    stack.assert_lifo(&outer);
    assert!(!stack.is_top(&outer));
}

#[test]
fn a_run_of_tracker_operations_keeps_state_gas_zero() {
    let mut t = GasTracker::new(1_000, 1_000, 77);
    assert!(t.record_regular_cost(400));
    assert_eq!(t.deduct_state_gas(5_000), Ok(()));
    assert!(t.record_state_cost(5_000));
    assert_eq!(t.deduct_gas(700), Err(GasTrackerError::OutOfGas));
    t.record_refund(-3);
    t.refund_gas(10);
    assert_eq!(t.deduct_gas(600), Ok(()));
    assert_eq!(t.state_gas_used(), 0);
    assert_eq!(t.state_gas_spent(), 0);
    assert_eq!(t.reservoir(), 77);
    assert_eq!(t.limit(), 1_000);
    assert_eq!(t.gas_limit(), 1_000);
    assert_eq!(t.gas_used(), 1_000);
    assert_eq!(t.refunded(), 7);
}
