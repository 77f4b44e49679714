use sci_chain::dispatch::TempoHardfork;
use sci_chain::error::{PanicKind, TempoPrecompileError};
use sci_chain::storage_gas::StorageGasMeter;

#[test]
fn after_access_before_t4_charges_static_then_cold() {
    let mut m = StorageGasMeter::new(10_000, 0, TempoHardfork::T3, false);
    assert_eq!(m.after_access(100, 2_000, true), Ok(()));
    assert_eq!(m.gas_used(), 2_100);
    assert_eq!(m.after_access(100, 2_000, false), Ok(()));
    assert_eq!(m.gas_used(), 2_200);
}

#[test]
fn after_access_from_t4_charges_only_the_cold_surcharge() {
    let mut m = StorageGasMeter::new(10_000, 0, TempoHardfork::T4, false);
    assert_eq!(m.before_access(100, 2_000), Ok(false));
    assert_eq!(m.after_access(100, 2_000, true), Ok(()));
    assert_eq!(m.gas_used(), 2_100);
}

#[test]
fn after_access_out_of_gas_keeps_the_static_charge() {
    let mut m = StorageGasMeter::new(1_000, 0, TempoHardfork::T3, false);
    assert_eq!(m.after_access(100, 2_000, true), Err(TempoPrecompileError::OutOfGas));
    assert_eq!(m.gas_used(), 100);
    let mut m = StorageGasMeter::new(50, 0, TempoHardfork::T3, false);
    assert_eq!(m.after_access(100, 0, false), Err(TempoPrecompileError::OutOfGas));
    assert_eq!(m.gas_used(), 0);
}

#[test]
fn emit_event_charges_base_plus_log_cost() {
    let mut m = StorageGasMeter::new(10_000, 0, TempoHardfork::T5, false);
    assert_eq!(m.emit_event(375, 1_000), Ok(()));
    assert_eq!(m.gas_used(), 1_375);
    assert_eq!(m.emit_event(375, 10_000), Err(TempoPrecompileError::OutOfGas));
    assert_eq!(m.gas_used(), 1_375);
    assert_eq!(
        m.emit_event(u64::MAX, 1),
        Err(TempoPrecompileError::Panic(PanicKind::UnderOverflow))
    );
    assert_eq!(m.gas_used(), 1_375);
}

#[test]
fn transient_access_charges_the_warm_cost() {
    let mut m = StorageGasMeter::new(150, 0, TempoHardfork::T5, true);
    assert_eq!(m.transient_access(100), Ok(()));
    assert_eq!(m.gas_used(), 100);
    assert_eq!(m.transient_access(100), Err(TempoPrecompileError::OutOfGas));
    assert_eq!(m.gas_used(), 100);
    assert!(m.is_static());
}
