use std::collections::HashMap;

use sci_chain::agent_state::{decode_agent_state_call, AgentStateCall, AgentStateStep, SciAgentState, TripStateUpdate};
use sci_chain::dispatch::{agent_circuit_breaker_address, TempoHardfork};
use sci_chain::error::{decode_error, SciAgentStateError, TempoPrecompileError};
use sci_chain::gas::GasTracker;
use sci_chain::precompile::{ExecutionStatus, PrecompileOutput};
use sci_chain::primitives::Address;

const TRIP_KEY: [u8; 4] = [0x67, 0xf1, 0x23, 0x41];
const UNTRIP_KEY: [u8; 4] = [0xbf, 0x06, 0x95, 0xe4];
const IS_TRIPPED: [u8; 4] = [0xf3, 0xa4, 0x6c, 0x7b];

fn key_calldata(selector: [u8; 4], key: u8) -> Vec<u8> {
    let mut data = selector.to_vec();
    data.extend_from_slice(&[0u8; 12]);
    data.extend_from_slice(&[key; 20]);
    data
}

struct Harness {
    flags: HashMap<Address, bool>,
    events: Vec<TripStateUpdate>,
}

impl Harness {
    fn new() -> Self {
        Harness { flags: HashMap::new(), events: Vec::new() }
    }

    fn call(&mut self, calldata: &[u8], sender: Address) -> PrecompileOutput {
        let mut gas = GasTracker::new(1_000_000, 0, 0);
        let state = SciAgentState;
        match state.call_step(calldata, sender, false, TempoHardfork::T3, &mut gas) {
            AgentStateStep::Respond(r) => r.expect("no fatal error"),
            AgentStateStep::Write(update) => {
                self.flags.insert(update.session_key, update.is_tripped);
                self.events.push(update);
                state.finish_write(Ok(()), gas.gas_used()).expect("no fatal error")
            }
            AgentStateStep::Read(key) => {
                let flag = *self.flags.get(&key).unwrap_or(&false);
                state.finish_read(Ok(flag), gas.gas_used()).expect("no fatal error")
            }
        }
    }

    fn tripped(&self, key: u8) -> bool {
        *self.flags.get(&Address::from_bytes([key; 20])).unwrap_or(&false)
    }
}

fn bad_caller() -> Address {
    Address::from_bytes([0x5a; 20])
}

#[test]
fn trip_key_unauthorized_caller_reverts() {
    let mut h = Harness::new();
    assert_ne!(bad_caller(), agent_circuit_breaker_address());

    let result = h.call(&key_calldata(TRIP_KEY, 0x21), bad_caller());
    assert!(result.is_revert(), "expected revert for unauthorized caller");

    let decoded = decode_error(&result.bytes).expect("expected SciAgentStateError");
    assert!(matches!(
        decoded.error,
        TempoPrecompileError::SciAgentStateError(SciAgentStateError::Unauthorized)
    ));
}

#[test]
fn trip_key_authorized_succeeds_and_emits_event() {
    let mut h = Harness::new();
    let result = h.call(&key_calldata(TRIP_KEY, 0x21), agent_circuit_breaker_address());
    assert!(!result.is_revert(), "expected success");
    assert!(h.tripped(0x21));
    assert_eq!(
        h.events,
        vec![TripStateUpdate { session_key: Address::from_bytes([0x21; 20]), is_tripped: true }]
    );
}

#[test]
fn untrip_key_unauthorized_caller_reverts() {
    let mut h = Harness::new();
    let _ = h.call(&key_calldata(TRIP_KEY, 0x21), agent_circuit_breaker_address());
    assert!(h.tripped(0x21));

    let result = h.call(&key_calldata(UNTRIP_KEY, 0x21), bad_caller());
    assert!(result.is_revert());
    assert!(h.tripped(0x21));
}

#[test]
fn untrip_key_clears_flag() {
    let mut h = Harness::new();
    let _ = h.call(&key_calldata(TRIP_KEY, 0x21), agent_circuit_breaker_address());
    assert!(h.tripped(0x21));

    let result = h.call(&key_calldata(UNTRIP_KEY, 0x21), agent_circuit_breaker_address());
    assert!(!result.is_revert());
    assert!(!h.tripped(0x21));
}

#[test]
fn is_tripped_view_returns_current_state() {
    let mut h = Harness::new();
    let calldata = key_calldata(IS_TRIPPED, 0x21);

    let result = h.call(&calldata, bad_caller());
    assert!(!result.is_revert());
    assert_eq!(result.bytes, vec![0u8; 32]);

    let _ = h.call(&key_calldata(TRIP_KEY, 0x21), agent_circuit_breaker_address());
    let result = h.call(&calldata, bad_caller());
    assert!(!result.is_revert());
    let mut one = vec![0u8; 31];
    one.push(1);
    assert_eq!(result.bytes, one);
}

#[test]
fn untrip_when_not_tripped_is_idempotent() {
    let mut h = Harness::new();
    let result = h.call(&key_calldata(UNTRIP_KEY, 0x21), agent_circuit_breaker_address());
    assert!(!result.is_revert());
    assert!(!h.tripped(0x21));
}

#[test]
fn mutator_under_static_call_reverts_without_writing() {
    let mut gas = GasTracker::new(1_000_000, 0, 0);
    let step = SciAgentState.call_step(
        &key_calldata(TRIP_KEY, 0x21),
        agent_circuit_breaker_address(),
        true,
        TempoHardfork::T3,
        &mut gas,
    );
    match step {
        AgentStateStep::Respond(Ok(out)) => assert_eq!(out.status, ExecutionStatus::Revert),
        other => panic!("expected a revert, got {other:?}"),
    }
}

#[test]
fn unknown_selector_is_answered_without_storage() {
    let mut gas = GasTracker::new(1_000_000, 0, 0);
    let step = SciAgentState.call_step(
        &key_calldata([1, 2, 3, 4], 0x21),
        agent_circuit_breaker_address(),
        false,
        TempoHardfork::T3,
        &mut gas,
    );
    assert!(matches!(step, AgentStateStep::Respond(_)));
}

#[test]
fn input_cost_is_charged_before_dispatch() {
    let mut gas = GasTracker::new(1_000_000, 0, 0);
    let _ = SciAgentState.call_step(&key_calldata(IS_TRIPPED, 0x21), bad_caller(), false, TempoHardfork::T3, &mut gas);
    // 36 bytes of calldata are two words at 6 gas each.
    assert_eq!(gas.gas_used(), 12);

    let mut starved = GasTracker::new(5, 0, 0);
    let step = SciAgentState.call_step(&key_calldata(IS_TRIPPED, 0x21), bad_caller(), false, TempoHardfork::T3, &mut starved);
    match step {
        AgentStateStep::Respond(Ok(out)) => assert!(out.status.is_halt()),
        other => panic!("expected an out-of-gas halt, got {other:?}"),
    }
    assert_eq!(starved.gas_used(), 0);
}

#[test]
fn static_mutator_reverts_with_static_call_not_allowed() {
    let mut gas = GasTracker::new(1_000_000, 0, 0);
    let step = SciAgentState.call_step(
        &key_calldata(UNTRIP_KEY, 0x21),
        agent_circuit_breaker_address(),
        true,
        TempoHardfork::T3,
        &mut gas,
    );
    match step {
        AgentStateStep::Respond(Ok(out)) => {
            assert_eq!(out.bytes, vec![0xbe, 0xab, 0xa5, 0xb7]);
            assert_eq!(out.gas_used, 12);
        }
        other => panic!("expected a revert, got {other:?}"),
    }
}

#[test]
fn short_calldata_reverts_empty_from_t1() {
    let mut gas = GasTracker::new(1_000_000, 0, 0);
    let step = SciAgentState.call_step(&[0x67], bad_caller(), false, TempoHardfork::T1, &mut gas);
    match step {
        AgentStateStep::Respond(Ok(out)) => {
            assert_eq!(out.status, ExecutionStatus::Revert);
            assert!(out.bytes.is_empty());
            assert_eq!(out.gas_used, 6);
        }
        other => panic!("expected a revert, got {other:?}"),
    }
}

#[test]
fn trip_from_static_or_stranger_writes_nothing() {
    let mut h = Harness::new();
    let _ = h.call(&key_calldata(TRIP_KEY, 0x21), bad_caller());
    let _ = h.call(&key_calldata(TRIP_KEY, 0x22), bad_caller());
    assert!(h.events.is_empty());
    assert!(!h.tripped(0x21) && !h.tripped(0x22));
    let _ = h.call(&key_calldata(TRIP_KEY, 0x22), agent_circuit_breaker_address());
    assert!(!h.tripped(0x21) && h.tripped(0x22));
}

#[test]
fn sci_agent_state_selector_coverage() {
    let key = Address::from_bytes([0x21; 20]);
    let cases = [
        (TRIP_KEY, AgentStateCall::TripKey(key)),
        (UNTRIP_KEY, AgentStateCall::UntripKey(key)),
        (IS_TRIPPED, AgentStateCall::IsTripped(key)),
    ];
    for (selector, expected) in cases {
        assert_eq!(decode_agent_state_call(&key_calldata(selector, 0x21)), Ok(expected));
        let mut gas = GasTracker::new(1_000_000, 0, 0);
        let step = SciAgentState.call_step(
            &key_calldata(selector, 0x21),
            agent_circuit_breaker_address(),
            false,
            TempoHardfork::T3,
            &mut gas,
        );
        assert!(!matches!(step, AgentStateStep::Respond(_)));
    }
}
