use sci_chain::dispatch::{
    account_keychain_address, delegate_call_guard, dispatch_call, input_cost, is_sci_precompile_address,
    lookup_precompile, sci_agent_state_address, sci_launch_hardfork, static_call_guard, with_gas_used,
    CallDecodeError, ResolvedPrecompile, Routed, SciPrecompile, SelectorSchedule, TempoHardfork,
};
use sci_chain::precompile::{ExecutionStatus, PrecompileHalt, PrecompileOutput};
use sci_chain::primitives::Address;

#[test]
fn input_cost_is_six_gas_per_started_word() {
    assert_eq!(input_cost(0), 0);
    assert_eq!(input_cost(1), 6);
    assert_eq!(input_cost(32), 6);
    assert_eq!(input_cost(33), 12);
    assert_eq!(input_cost(68), 18);
}

#[test]
fn sci_precompiles_are_looked_up_by_address() {
    assert_eq!(
        lookup_precompile(&account_keychain_address()),
        Some(ResolvedPrecompile { kind: SciPrecompile::AccountKeychain, spec: TempoHardfork::T5 })
    );
    assert_eq!(
        lookup_precompile(&sci_agent_state_address()),
        Some(ResolvedPrecompile { kind: SciPrecompile::SciAgentState, spec: sci_launch_hardfork() })
    );
    assert_eq!(lookup_precompile(&Address::zero()), None);
    assert!(is_sci_precompile_address(&account_keychain_address()));
    assert!(!is_sci_precompile_address(&Address::from_bytes([0xFF; 20])));
    let mut kc = [0u8; 20];
    kc[..4].copy_from_slice(&[0xAA; 4]);
    assert_eq!(Address::from_bytes(kc), account_keychain_address());
}

#[test]
fn missing_selector_reverts_from_t1_and_halts_before() {
    let r: Routed<()> = dispatch_call(&[1, 2], &[], TempoHardfork::T1, 9, Ok(()));
    match r {
        Routed::Respond(Ok(o)) => {
            assert_eq!(o.status, ExecutionStatus::Revert);
            assert_eq!(o.gas_used, 9);
            assert!(o.bytes.is_empty());
        }
        other => panic!("expected a revert, got {other:?}"),
    }
    let r: Routed<()> = dispatch_call(&[], &[], TempoHardfork::T0, 9, Ok(()));
    match r {
        Routed::Respond(Ok(o)) => assert_eq!(
            o.status,
            ExecutionStatus::Halt(PrecompileHalt::Other("Invalid input: missing function selector".to_string()))
        ),
        other => panic!("expected a halt, got {other:?}"),
    }
}

#[test]
fn scheduled_selectors_are_gated_by_hardfork() {
    let added = [0x11223344u32];
    let dropped = [0x55667788u32];
    let schedule = SelectorSchedule::new(TempoHardfork::T4).with_added(&added).with_dropped(&dropped);
    assert!(schedule.rejects(0x11223344, TempoHardfork::T3));
    assert!(!schedule.rejects(0x11223344, TempoHardfork::T4));
    assert!(!schedule.rejects(0x55667788, TempoHardfork::T3));
    assert!(schedule.rejects(0x55667788, TempoHardfork::T5));

    let r: Routed<u8> = dispatch_call(&[0x11, 0x22, 0x33, 0x44], &[schedule], TempoHardfork::T3, 4, Ok(1));
    match r {
        Routed::Respond(Ok(o)) => {
            assert_eq!(o.status, ExecutionStatus::Revert);
            assert_eq!(&o.bytes[..8], &[0xaa, 0x4b, 0xc6, 0x9a, 0x11, 0x22, 0x33, 0x44]);
        }
        other => panic!("expected a revert, got {other:?}"),
    }
    let r: Routed<u8> = dispatch_call(&[0x11, 0x22, 0x33, 0x44], &[schedule], TempoHardfork::T4, 4, Ok(1));
    assert!(matches!(r, Routed::Run(1)));
}

#[test]
fn decode_failures_revert() {
    let r: Routed<u8> = dispatch_call(&[1, 2, 3, 4], &[], TempoHardfork::T5, 4, Err(CallDecodeError::UnknownSelector(0x01020304)));
    match r {
        Routed::Respond(Ok(o)) => assert_eq!(&o.bytes[..4], &[0xaa, 0x4b, 0xc6, 0x9a]),
        other => panic!("expected a revert, got {other:?}"),
    }
    let r: Routed<u8> = dispatch_call(&[1, 2, 3, 4], &[], TempoHardfork::T5, 4, Err(CallDecodeError::Invalid));
    match r {
        Routed::Respond(Ok(o)) => {
            assert_eq!(o.status, ExecutionStatus::Revert);
            assert!(o.bytes.is_empty());
        }
        other => panic!("expected a revert, got {other:?}"),
    }
}

#[test]
fn call_guards_revert_with_their_errors() {
    assert!(delegate_call_guard(true).is_none());
    let out = delegate_call_guard(false).unwrap().unwrap();
    assert_eq!(out.status, ExecutionStatus::Revert);
    assert_eq!(out.bytes, vec![0x0d, 0x89, 0x43, 0x8e]);
    assert!(static_call_guard(false).is_none());
    let out = static_call_guard(true).unwrap().unwrap();
    assert_eq!(out.bytes, vec![0xbe, 0xab, 0xa5, 0xb7]);
}

#[test]
fn gas_used_is_overwritten() {
    let out = with_gas_used(Ok(PrecompileOutput::new(1, vec![3], 0)), 77).unwrap();
    assert_eq!(out.gas_used, 77);
    assert_eq!(out.bytes, vec![3]);
}

#[test]
fn hardfork_ladder_orders() {
    assert!(TempoHardfork::T3.is_at_or_before(&TempoHardfork::T3));
    assert!(!TempoHardfork::T5.is_at_or_before(&TempoHardfork::T4));
    assert!(TempoHardfork::T4.is_t4());
    assert!(!TempoHardfork::T3.is_t4());
    assert!(!TempoHardfork::T0.is_t1());
    assert_eq!(sci_launch_hardfork(), TempoHardfork::T5);
    assert!(sci_launch_hardfork().is_t5());
    assert_eq!(TempoHardfork::T2.ordinal(), 2);
}
