use sci_chain::dispatch::{
    account_keychain_address, sci_agent_state_address, ResolvedPrecompile, SciPrecompile, TempoHardfork,
};
use sci_chain::precompile::{HostPrecompileOutput, PrecompileError};
use sci_chain::primitives::Address;
use sci_chain::zkvm::{contains, interpret_precompile_result, route_precompile, InstructionResult, PrecompileRoute};

fn host_output(gas_used: u64, bytes: Vec<u8>, reverted: bool) -> HostPrecompileOutput {
    HostPrecompileOutput { gas_used, gas_refunded: 0, bytes, reverted }
}

#[test]
fn sci_addresses_are_contained_outside_the_standard_set() {
    assert!(contains(&account_keychain_address(), false));
    assert!(contains(&sci_agent_state_address(), false));
    let fake = Address::from_bytes([0xFF; 20]);
    assert!(!contains(&fake, false));
    assert!(contains(&fake, true));
}

#[test]
fn success_is_charged_and_returns_bytes() {
    let out = interpret_precompile_result(1_000, Ok(host_output(60, vec![1, 2], false)), false).unwrap();
    assert_eq!(out.result, InstructionResult::Return);
    assert_eq!(out.gas_limit, 1_000);
    assert_eq!(out.gas_remaining, 940);
    assert_eq!(out.output, vec![1, 2]);
}

#[test]
fn sci_revert_is_reported_as_revert() {
    let out = interpret_precompile_result(100, Ok(host_output(10, vec![0xAB], true)), true).unwrap();
    assert_eq!(out.result, InstructionResult::Revert);
    assert_eq!(out.gas_remaining, 90);
    assert_eq!(out.output, vec![0xAB]);
}

#[test]
fn standard_precompile_revert_flag_is_ignored() {
    let out = interpret_precompile_result(100, Ok(host_output(10, vec![0xAB], true)), false).unwrap();
    assert_eq!(out.result, InstructionResult::Return);
}

#[test]
fn other_precompile_error_keeps_gas() {
    let out = interpret_precompile_result(77, Err(PrecompileError::Other("bad input".to_string())), true)
        .unwrap();
    assert_eq!(out.result, InstructionResult::PrecompileError);
    assert_eq!(out.gas_remaining, 77);
    assert!(out.output.is_empty());
}

#[test]
fn fatal_precompile_error_aborts_with_message() {
    let out = interpret_precompile_result(77, Err(PrecompileError::Fatal("db down".to_string())), true);
    assert_eq!(out.unwrap_err(), "db down".to_string());
}

#[test]
fn calls_are_routed_sci_first_then_standard() {
    let kc = route_precompile(&account_keychain_address(), true);
    assert_eq!(
        kc,
        PrecompileRoute::Sci(ResolvedPrecompile { kind: SciPrecompile::AccountKeychain, spec: TempoHardfork::T5 })
    );
    assert!(kc.honor_revert());
    let st = route_precompile(&sci_agent_state_address(), false);
    assert_eq!(
        st,
        PrecompileRoute::Sci(ResolvedPrecompile { kind: SciPrecompile::SciAgentState, spec: TempoHardfork::T5 })
    );
    let ecrec = route_precompile(&Address::from_bytes([0; 20]), true);
    assert_eq!(ecrec, PrecompileRoute::Standard);
    assert!(!ecrec.honor_revert());
    assert_eq!(route_precompile(&Address::from_bytes([7; 20]), false), PrecompileRoute::Absent);
}
