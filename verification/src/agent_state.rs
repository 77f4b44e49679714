//! The agent-state precompile: per-session-key circuit-breaker flags that
//! only the circuit breaker predeploy may set or clear, and that anyone may
//! read.
//!
//! The flags live in EVM storage; this module decides what a call does to
//! them (write a flag and emit its event, read a flag, or answer at once) and
//! how the call is answered once the storage operation has run.
use vstd::prelude::*;
use crate::abi::{
    IS_TRIPPED_SELECTOR, STATIC_CALL_NOT_ALLOWED_SELECTOR, TRIP_KEY_SELECTOR, UNTRIP_KEY_SELECTOR,
    bool_word, read_selector, selector_seq, unknown_selector_payload, word,
};
use crate::classify::word_address;
use crate::dispatch::{
    CallDecodeError, Routed, SelectorSchedule, TempoHardfork, agent_circuit_breaker_address,
    charge_input_cost, dispatch_call, spec_agent_circuit_breaker_address, spec_route,
    static_call_guard, with_gas_used,
};
use crate::error::{SciAgentStateError, TempoPrecompileError, result_into_precompile_result, revert_payload};
use crate::gas::GasTracker;
use crate::precompile::{ExecutionStatus, PrecompileResult};
use crate::primitives::{Address, be_nat};

verus! {

/// A decoded call of the agent-state precompile.
#[derive(Clone, Copy, Debug, PartialEq, Eq, Structural)]
pub enum AgentStateCall {
    /// `tripKey(address sessionKey)`.
    TripKey(Address),
    /// `untripKey(address sessionKey)`.
    UntripKey(Address),
    /// `isTripped(address sessionKey)`.
    IsTripped(Address),
}

/// How the interface decoder reads agent-state calldata: every function takes
/// one address, so anything shorter than a selector and one word is invalid;
/// an unknown selector is reported as such.
pub open spec fn spec_decode_agent_state_call(data: Seq<u8>) -> Result<AgentStateCall, CallDecodeError> {
    if data.len() < 36 {
        Err(CallDecodeError::Invalid)
    } else {
        let sel = be_nat(data.subrange(0, 4));
        let key = Address {
            hi: be_nat(data.subrange(16, 20)) as u32,
            lo: be_nat(data.subrange(20, 36)) as u128,
        };
        if sel == TRIP_KEY_SELECTOR as nat {
            Ok(AgentStateCall::TripKey(key))
        } else if sel == UNTRIP_KEY_SELECTOR as nat {
            Ok(AgentStateCall::UntripKey(key))
        } else if sel == IS_TRIPPED_SELECTOR as nat {
            Ok(AgentStateCall::IsTripped(key))
        } else {
            Err(CallDecodeError::UnknownSelector(sel as u32))
        }
    }
}

/// Decodes agent-state calldata; see [`spec_decode_agent_state_call`].
pub fn decode_agent_state_call(data: &[u8]) -> (r: Result<AgentStateCall, CallDecodeError>)
    ensures
        r == spec_decode_agent_state_call(data@),
{
    if data.len() < 36 {
        return Err(CallDecodeError::Invalid);
    }
    let sel = read_selector(data);
    let hi = crate::primitives::read_be_u128(data, 16, 4);
    let lo = crate::primitives::read_be_u128(data, 20, 16);
    proof {
        crate::primitives::lemma_be_nat_bound(data@.subrange(16, 20));
        crate::primitives::lemma_pow256_values();
    }
    let key = Address { hi: hi as u32, lo };
    if sel == TRIP_KEY_SELECTOR {
        Ok(AgentStateCall::TripKey(key))
    } else if sel == UNTRIP_KEY_SELECTOR {
        Ok(AgentStateCall::UntripKey(key))
    } else if sel == IS_TRIPPED_SELECTOR {
        Ok(AgentStateCall::IsTripped(key))
    } else {
        Err(CallDecodeError::UnknownSelector(sel))
    }
}

/// A change of a session key's flag, which is also the `TripStateUpdate`
/// event the change emits.
#[derive(Clone, Copy, Debug, PartialEq, Eq, Structural)]
pub struct TripStateUpdate {
    /// The session key whose flag changes.
    pub session_key: Address,
    /// The flag's new value.
    pub is_tripped: bool,
}

/// The agent-state precompile.
#[derive(Clone, Copy, Debug, PartialEq, Eq, Structural)]
pub struct SciAgentState;

/// What a call of the agent-state precompile asks of storage.
#[derive(Debug)]
pub enum AgentStateStep {
    /// Answer with this result; storage is not touched.
    Respond(PrecompileResult),
    /// Write the flag and emit the update event, then [`SciAgentState::finish_write`].
    Write(TripStateUpdate),
    /// Read the flag of this key, then [`SciAgentState::finish_read`].
    Read(Address),
}

impl SciAgentState {
    /// Sets `sessionKey`'s flag: the write to make and event to emit, only
    /// for the circuit breaker; any other caller gets `Unauthorized`.
    pub fn trip_key(&self, msg_sender: Address, session_key: Address) -> (r: Result<TripStateUpdate, TempoPrecompileError>)
        ensures
            r is Ok <==> msg_sender == spec_agent_circuit_breaker_address(),
            r matches Ok(u) ==> u == (TripStateUpdate { session_key, is_tripped: true }),
            r matches Err(e) ==> e == TempoPrecompileError::SciAgentStateError(
                SciAgentStateError::Unauthorized,
            ),
    {
        if msg_sender != agent_circuit_breaker_address() {
            return Err(
                TempoPrecompileError::SciAgentStateError(SciAgentStateError::unauthorized_caller()),
            );
        }
        Ok(TripStateUpdate { session_key, is_tripped: true })
    }

    /// Clears `sessionKey`'s flag: the write to make and event to emit, only
    /// for the circuit breaker; any other caller gets `Unauthorized`.
    pub fn untrip_key(&self, msg_sender: Address, session_key: Address) -> (r: Result<TripStateUpdate, TempoPrecompileError>)
        ensures
            r is Ok <==> msg_sender == spec_agent_circuit_breaker_address(),
            r matches Ok(u) ==> u == (TripStateUpdate { session_key, is_tripped: false }),
            r matches Err(e) ==> e == TempoPrecompileError::SciAgentStateError(
                SciAgentStateError::Unauthorized,
            ),
    {
        if msg_sender != agent_circuit_breaker_address() {
            return Err(
                TempoPrecompileError::SciAgentStateError(SciAgentStateError::unauthorized_caller()),
            );
        }
        Ok(TripStateUpdate { session_key, is_tripped: false })
    }

    /// The first part of a call: charge the input cost, route the calldata,
    /// apply the static-call guard to the mutators and the authorization
    /// check; see [`spec_call_step`].
    pub fn call_step(
        &self,
        calldata: &[u8],
        msg_sender: Address,
        is_static: bool,
        spec: TempoHardfork,
        gas: &mut GasTracker,
    ) -> (r: AgentStateStep)
        requires
            old(gas).wf(),
        ensures
            final(gas).wf(),
            spec_call_step(calldata@, msg_sender, is_static, spec, old(gas)@.used, old(gas)@.limit, final(gas)@.used, r),
    {
        if let Some(res) = charge_input_cost(gas, calldata) {
            return AgentStateStep::Respond(res);
        }
        let gas_used = gas.gas_used();
        let schedules = [SelectorSchedule::new(TempoHardfork::T3)];
        let decoded = decode_agent_state_call(calldata);
        let routed = dispatch_call(calldata, schedules.as_slice(), spec, gas_used, decoded);
        proof {
            assert(!crate::dispatch::any_rejects(schedules@, be_nat(calldata@.subrange(0, 4)) as u32, spec)) by {
                assert(schedules@.len() == 1);
                assert(schedules@[0].dropped_at().len() == 0);
                assert(schedules@[0].added_at().len() == 0);
            }
        }
        match routed {
            Routed::Respond(res) => AgentStateStep::Respond(res),
            Routed::Run(AgentStateCall::IsTripped(key)) => AgentStateStep::Read(key),
            Routed::Run(AgentStateCall::TripKey(key)) => {
                if let Some(res) = static_call_guard(is_static) {
                    return AgentStateStep::Respond(with_gas_used(res, gas_used));
                }
                match self.trip_key(msg_sender, key) {
                    Ok(update) => AgentStateStep::Write(update),
                    Err(e) => AgentStateStep::Respond(
                        with_gas_used(e.into_precompile_result(0, 0), gas_used),
                    ),
                }
            },
            Routed::Run(AgentStateCall::UntripKey(key)) => {
                if let Some(res) = static_call_guard(is_static) {
                    return AgentStateStep::Respond(with_gas_used(res, gas_used));
                }
                match self.untrip_key(msg_sender, key) {
                    Ok(update) => AgentStateStep::Write(update),
                    Err(e) => AgentStateStep::Respond(
                        with_gas_used(e.into_precompile_result(0, 0), gas_used),
                    ),
                }
            },
        }
    }

    /// Answers a mutator once its write (and event) has run with the storage
    /// outcome `stored`, reporting the storage context's `gas_used`.
    pub fn finish_write(&self, stored: Result<(), TempoPrecompileError>, gas_used: u64) -> (r: PrecompileResult)
        ensures
            stored is Ok ==> (r matches Ok(o) && o.status == ExecutionStatus::Success && o.gas_used
                == gas_used && o.bytes@.len() == 0),
            stored matches Err(e) ==> (revert_payload(e) matches Some(p) ==> (r matches Ok(o)
                && o.status == ExecutionStatus::Revert && o.gas_used == gas_used && o.bytes@ == p)),
    {
        let res = result_into_precompile_result(stored, 0, 0, |u: ()| -> (b: Vec<u8>)
            ensures
                b@.len() == 0,
            { Vec::new() });
        with_gas_used(res, gas_used)
    }

    /// Answers `isTripped` with the flag read from storage, ABI-encoded as a
    /// boolean word.
    pub fn finish_read(&self, read: Result<bool, TempoPrecompileError>, gas_used: u64) -> (r: PrecompileResult)
        ensures
            read matches Ok(flag) ==> (r matches Ok(o) && o.status == ExecutionStatus::Success
                && o.gas_used == gas_used && o.bytes@ == word(if flag {
                1nat
            } else {
                0nat
            })),
            read matches Err(e) ==> (revert_payload(e) matches Some(p) ==> (r matches Ok(o)
                && o.status == ExecutionStatus::Revert && o.gas_used == gas_used && o.bytes@ == p)),
    {
        let res = result_into_precompile_result(read, 0, 0, |flag: bool| -> (b: Vec<u8>)
            ensures
                b@ == word(if flag {
                    1nat
                } else {
                    0nat
                }),
            { bool_word(flag) });
        with_gas_used(res, gas_used)
    }
}

/// The revert a step answers with: its bytes, reporting `gas_used`.
pub open spec fn reverts_with(r: AgentStateStep, bytes: Seq<u8>, gas_used: u64) -> bool {
    r matches AgentStateStep::Respond(Ok(o)) && o.status == ExecutionStatus::Revert && o.gas_used
        == gas_used && o.bytes@ =~= bytes
}

/// What the first part of a call decides:
///
/// - when the gas cannot cover the input cost, an out-of-gas halt, charging
///   nothing;
/// - otherwise, with the input cost charged: calldata shorter than a
///   selector reverts with no data from T1 on and halts before; an unknown
///   selector reverts with `UnknownFunctionSelector`, malformed arguments
///   with no data;
/// - reads are open to anyone;
/// - a mutator under a static call reverts with `StaticCallNotAllowed`; a
///   mutator from anyone but the circuit breaker reverts with
///   `Unauthorized` and writes nothing; the circuit breaker's mutators write
///   the flag.
pub open spec fn spec_call_step(
    calldata: Seq<u8>,
    msg_sender: Address,
    is_static: bool,
    spec: TempoHardfork,
    used_before: u64,
    limit: u64,
    used_after: u64,
    r: AgentStateStep,
) -> bool {
    let cost = crate::dispatch::words(calldata.len()) * 6;
    if crate::gas::sat_add_u64(used_before as int, cost as int) > limit {
        r matches AgentStateStep::Respond(Ok(o)) && o.status == ExecutionStatus::Halt(
            crate::precompile::PrecompileHalt::OutOfGas,
        ) && used_after == used_before
    } else if calldata.len() < 4 {
        &&& used_after == crate::gas::sat_add_u64(used_before as int, cost as int)
        &&& if spec.rank() >= 1 {
            reverts_with(r, Seq::empty(), used_after)
        } else {
            r matches AgentStateStep::Respond(Ok(o)) && o.status matches ExecutionStatus::Halt(
                crate::precompile::PrecompileHalt::Other(m),
            ) && m@ == "Invalid input: missing function selector"@
        }
    } else {
        &&& used_after == crate::gas::sat_add_u64(used_before as int, cost as int)
        &&& match spec_decode_agent_state_call(calldata) {
            Ok(AgentStateCall::IsTripped(key)) => r == AgentStateStep::Read(key),
            Ok(AgentStateCall::TripKey(key)) => if is_static {
                reverts_with(r, selector_seq(STATIC_CALL_NOT_ALLOWED_SELECTOR), used_after)
            } else if msg_sender == spec_agent_circuit_breaker_address() {
                r == AgentStateStep::Write(TripStateUpdate { session_key: key, is_tripped: true })
            } else {
                reverts_with(r, SciAgentStateError::Unauthorized.payload(), used_after)
            },
            Ok(AgentStateCall::UntripKey(key)) => if is_static {
                reverts_with(r, selector_seq(STATIC_CALL_NOT_ALLOWED_SELECTOR), used_after)
            } else if msg_sender == spec_agent_circuit_breaker_address() {
                r == AgentStateStep::Write(TripStateUpdate { session_key: key, is_tripped: false })
            } else {
                reverts_with(r, SciAgentStateError::Unauthorized.payload(), used_after)
            },
            Err(CallDecodeError::UnknownSelector(sel)) => reverts_with(
                r,
                unknown_selector_payload(sel),
                used_after,
            ),
            Err(CallDecodeError::Invalid) => reverts_with(r, Seq::empty(), used_after),
        }
    }
}

/// The flags after a step: a write sets its key's flag; nothing else
/// changes them.
pub open spec fn flags_after(flags: Map<Address, bool>, step: AgentStateStep) -> Map<Address, bool> {
    match step {
        AgentStateStep::Write(u) => flags.insert(u.session_key, u.is_tripped),
        _ => flags,
    }
}

/// A key's flag; a key never written is not tripped.
pub open spec fn flag(flags: Map<Address, bool>, key: Address) -> bool {
    flags.contains_key(key) && flags[key]
}

/// Law: only the circuit breaker changes flags. Whatever the calldata, a
/// call from any other sender (or a static call) leaves every flag as it
/// was.
pub proof fn lemma_only_breaker_changes_flags(
    flags: Map<Address, bool>,
    calldata: Seq<u8>,
    msg_sender: Address,
    is_static: bool,
    spec: TempoHardfork,
    used_before: u64,
    limit: u64,
    used_after: u64,
    r: AgentStateStep,
)
    requires
        spec_call_step(calldata, msg_sender, is_static, spec, used_before, limit, used_after, r),
        msg_sender != spec_agent_circuit_breaker_address() || is_static,
    ensures
        flags_after(flags, r) == flags,
{
}

/// Law: a `tripKey(key)` call from the circuit breaker that the gas covers
/// trips exactly `key`, and an `untripKey(key)` call clears exactly `key`
/// (whether or not it was tripped); every other key keeps its flag.
pub proof fn lemma_breaker_sets_exactly_its_key(
    flags: Map<Address, bool>,
    calldata: Seq<u8>,
    spec: TempoHardfork,
    used_before: u64,
    limit: u64,
    used_after: u64,
    r: AgentStateStep,
    key: Address,
)
    requires
        spec_call_step(calldata, spec_agent_circuit_breaker_address(), false, spec, used_before, limit, used_after, r),
        crate::gas::sat_add_u64(used_before as int, (crate::dispatch::words(calldata.len()) * 6) as int) <= limit,
        spec_decode_agent_state_call(calldata) == Ok::<AgentStateCall, CallDecodeError>(AgentStateCall::TripKey(key))
            || spec_decode_agent_state_call(calldata) == Ok::<AgentStateCall, CallDecodeError>(AgentStateCall::UntripKey(key)),
    ensures
        flag(flags_after(flags, r), key) == (spec_decode_agent_state_call(calldata) == Ok::<AgentStateCall, CallDecodeError>(AgentStateCall::TripKey(key))),
        forall|other: Address| other != key ==> flag(flags_after(flags, r), other) == flag(flags, other),
{
    assert(calldata.len() >= 36);
}

/// The flags after a run of steps, applied in order.
pub open spec fn flags_after_run(flags: Map<Address, bool>, steps: Seq<AgentStateStep>) -> Map<Address, bool>
    decreases steps.len(),
{
    if steps.len() == 0 {
        flags
    } else {
        flags_after(flags_after_run(flags, steps.drop_last()), steps.last())
    }
}

/// The flag the last write of `key` in a run set, if any step wrote it.
pub open spec fn last_write(steps: Seq<AgentStateStep>, key: Address) -> Option<bool>
    decreases steps.len(),
{
    if steps.len() == 0 {
        None
    } else {
        match steps.last() {
            AgentStateStep::Write(u) => if u.session_key == key {
                Some(u.is_tripped)
            } else {
                last_write(steps.drop_last(), key)
            },
            _ => last_write(steps.drop_last(), key),
        }
    }
}

/// Law: a step writes only for a non-static call from the circuit breaker
/// whose calldata is `tripKey` or `untripKey` of the key it writes, setting
/// the flag to `true` for a trip and `false` for an untrip.
pub proof fn lemma_write_comes_from_breaker(
    calldata: Seq<u8>,
    msg_sender: Address,
    is_static: bool,
    spec: TempoHardfork,
    used_before: u64,
    limit: u64,
    used_after: u64,
    r: AgentStateStep,
)
    requires
        spec_call_step(calldata, msg_sender, is_static, spec, used_before, limit, used_after, r),
        r is Write,
    ensures
        msg_sender == spec_agent_circuit_breaker_address(),
        !is_static,
        r->Write_0.is_tripped ==> spec_decode_agent_state_call(calldata) == Ok::<AgentStateCall, CallDecodeError>(
            AgentStateCall::TripKey(r->Write_0.session_key),
        ),
        !r->Write_0.is_tripped ==> spec_decode_agent_state_call(calldata) == Ok::<AgentStateCall, CallDecodeError>(
            AgentStateCall::UntripKey(r->Write_0.session_key),
        ),
{
}

/// A key's flag after a run follows the last write of that key, and is
/// unchanged when the run never wrote it.
pub proof fn lemma_flag_follows_last_write(flags: Map<Address, bool>, steps: Seq<AgentStateStep>, key: Address)
    ensures
        flag(flags_after_run(flags, steps), key) == match last_write(steps, key) {
            Some(b) => b,
            None => flag(flags, key),
        },
    decreases steps.len(),
{
    if steps.len() > 0 {
        lemma_flag_follows_last_write(flags, steps.drop_last(), key);
    }
}

/// Law over a run of calls: with `calls[i]` the calldata, sender, static
/// flag and gas counters of the i-th call and `steps[i]` what it decided,
/// a key's flag after the run is the one its last write set (its flag before
/// the run, not tripped for a fresh store, if none wrote it); every write
/// came from a non-static call of the circuit breaker; and a run in which
/// the circuit breaker made no non-static call leaves every flag as it was.
pub proof fn lemma_run_flags(
    flags: Map<Address, bool>,
    calls: Seq<(Seq<u8>, Address, bool, u64, u64, u64)>,
    spec: TempoHardfork,
    steps: Seq<AgentStateStep>,
    key: Address,
)
    requires
        calls.len() == steps.len(),
        forall|i: int|
            0 <= i < calls.len() ==> spec_call_step(
                #[trigger] calls[i].0,
                calls[i].1,
                calls[i].2,
                spec,
                calls[i].3,
                calls[i].4,
                calls[i].5,
                steps[i],
            ),
    ensures
        flag(flags_after_run(flags, steps), key) == match last_write(steps, key) {
            Some(b) => b,
            None => flag(flags, key),
        },
        forall|i: int|
            0 <= i < steps.len() && #[trigger] steps[i] is Write ==> calls[i].1
                == spec_agent_circuit_breaker_address() && !calls[i].2,
        (forall|i: int|
            0 <= i < calls.len() ==> #[trigger] calls[i].1 != spec_agent_circuit_breaker_address()
                || calls[i].2) ==> flags_after_run(flags, steps) == flags,
    decreases steps.len(),
{
    lemma_flag_follows_last_write(flags, steps, key);
    assert forall|i: int| 0 <= i < steps.len() && #[trigger] steps[i] is Write implies calls[i].1
        == spec_agent_circuit_breaker_address() && !calls[i].2 by {
        lemma_write_comes_from_breaker(
            calls[i].0,
            calls[i].1,
            calls[i].2,
            spec,
            calls[i].3,
            calls[i].4,
            calls[i].5,
            steps[i],
        );
    }
    if steps.len() > 0 {
        let n = (steps.len() - 1) as int;
        lemma_run_flags(flags, calls.drop_last(), spec, steps.drop_last(), key);
        if forall|i: int|
            0 <= i < calls.len() ==> #[trigger] calls[i].1 != spec_agent_circuit_breaker_address()
                || calls[i].2 {
            assert(forall|i: int|
                0 <= i < calls.drop_last().len() ==> #[trigger] calls.drop_last()[i].1
                    != spec_agent_circuit_breaker_address() || calls.drop_last()[i].2) by {
                assert forall|i: int| 0 <= i < calls.drop_last().len() implies #[trigger] calls.drop_last()[i].1
                    != spec_agent_circuit_breaker_address() || calls.drop_last()[i].2 by {
                    assert(calls.drop_last()[i] == calls[i]);
                }
            }
            lemma_only_breaker_changes_flags(
                flags_after_run(flags, steps.drop_last()),
                calls[n].0,
                calls[n].1,
                calls[n].2,
                spec,
                calls[n].3,
                calls[n].4,
                calls[n].5,
                steps[n],
            );
        }
    }
}

} // verus!
