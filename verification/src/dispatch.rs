//! The SCI precompiles' call plumbing: calldata input cost, the precompile
//! addresses, hardfork selector schedules, and the routing every precompile
//! call goes through before its function body runs.
use vstd::prelude::*;
use crate::abi::{
    DELEGATE_CALL_NOT_ALLOWED_SELECTOR, STATIC_CALL_NOT_ALLOWED_SELECTOR, encode_no_args,
    read_selector, selector_seq,
};
use crate::error::{TempoPrecompileError, revert_payload};
use crate::gas::{GasTracker, sat_add_u64};
use crate::precompile::{ExecutionStatus, PrecompileHalt, PrecompileOutput, PrecompileResult};
use crate::primitives::{Address, be_nat, two_pow_128};

verus! {

/// Input per word cost. Covers ABI decoding and cloning of input into call data.
pub const INPUT_PER_WORD_COST: u64 = 6;

/// Gas cost for `ecrecover` signature verification.
pub const ECRECOVER_GAS: u64 = 3_000;

/// The number of 32-byte words `len` bytes occupy (rounded up).
pub open spec fn words(len: nat) -> nat {
    (len + 31) / 32
}

/// Gas cost of decoding calldata of the given length: six per word, rounded
/// up to whole words.
pub fn input_cost(calldata_len: usize) -> (r: u64)
    ensures
        r as nat == words(calldata_len as nat) * INPUT_PER_WORD_COST as nat,
{
    let q: usize = calldata_len / 32 + if calldata_len % 32 != 0 {
        1
    } else {
        0
    };
    assert(q as nat == words(calldata_len as nat));
    assert(q * 6 <= u64::MAX) by (nonlinear_arith)
        requires
            q <= usize::MAX / 32 + 1,
            usize::MAX <= u64::MAX,
    ;
    (q as u64) * 6
}

/// The hardfork ladder the SCI precompiles gate their behaviour on.
#[derive(Clone, Copy, Debug, PartialEq, Eq, Structural)]
pub enum TempoHardfork {
    T0,
    T1,
    T2,
    T3,
    T4,
    T5,
}

impl TempoHardfork {
    /// Position on the ladder.
    pub open spec fn rank(self) -> nat {
        match self {
            TempoHardfork::T0 => 0,
            TempoHardfork::T1 => 1,
            TempoHardfork::T2 => 2,
            TempoHardfork::T3 => 3,
            TempoHardfork::T4 => 4,
            TempoHardfork::T5 => 5,
        }
    }

    /// Position on the ladder.
    pub fn ordinal(&self) -> (r: u8)
        ensures
            r as nat == self.rank(),
    {
        match self {
            TempoHardfork::T0 => 0,
            TempoHardfork::T1 => 1,
            TempoHardfork::T2 => 2,
            TempoHardfork::T3 => 3,
            TempoHardfork::T4 => 4,
            TempoHardfork::T5 => 5,
        }
    }

    /// `self` is at or before `other`.
    pub fn is_at_or_before(&self, other: &TempoHardfork) -> (r: bool)
        ensures
            r == (self.rank() <= other.rank()),
    {
        self.ordinal() <= other.ordinal()
    }

    /// T1 or later.
    pub fn is_t1(&self) -> (r: bool)
        ensures
            r == (self.rank() >= 1),
    {
        self.ordinal() >= 1
    }

    /// T4 or later.
    pub fn is_t4(&self) -> (r: bool)
        ensures
            r == (self.rank() >= 4),
    {
        self.ordinal() >= 4
    }

    /// T5 or later.
    pub fn is_t5(&self) -> (r: bool)
        ensures
            r == (self.rank() >= 5),
    {
        self.ordinal() >= 5
    }
}

/// The SCI-facing name of the hardfork ladder.
pub type SciHardfork = TempoHardfork;

/// The hardfork SCI launches its precompiles at: T5.
pub open spec fn spec_sci_launch_hardfork() -> TempoHardfork {
    TempoHardfork::T5
}

/// The hardfork SCI launches its precompiles at.
pub fn sci_launch_hardfork() -> (r: TempoHardfork)
    ensures
        r == spec_sci_launch_hardfork(),
{
    TempoHardfork::T5
}

/// The account keychain precompile's address, `0xAAAAAAAA00…00`.
pub open spec fn spec_account_keychain_address() -> Address {
    Address { hi: 0xAAAAAAAA, lo: 0 }
}

/// The agent-state precompile's address, `0xAAAAAAAA00…01`.
pub open spec fn spec_sci_agent_state_address() -> Address {
    Address { hi: 0xAAAAAAAA, lo: 1 }
}

/// The circuit breaker predeploy's address, `0xBBBBBBBB00…03`: the only
/// caller allowed to trip and untrip keys.
pub open spec fn spec_agent_circuit_breaker_address() -> Address {
    Address { hi: 0xBBBBBBBB, lo: 3 }
}

/// The account keychain precompile's address.
pub fn account_keychain_address() -> (r: Address)
    ensures
        r == spec_account_keychain_address(),
{
    Address { hi: 0xAAAAAAAA, lo: 0 }
}

/// The agent-state precompile's address.
pub fn sci_agent_state_address() -> (r: Address)
    ensures
        r == spec_sci_agent_state_address(),
{
    Address { hi: 0xAAAAAAAA, lo: 1 }
}

/// The circuit breaker predeploy's address.
pub fn agent_circuit_breaker_address() -> (r: Address)
    ensures
        r == spec_agent_circuit_breaker_address(),
{
    Address { hi: 0xBBBBBBBB, lo: 3 }
}

/// The default fee token address, `0x20C000…00`.
pub fn default_fee_token() -> (r: Address)
    ensures
        r == (Address { hi: 0x20C00000, lo: 0 }),
{
    Address { hi: 0x20C00000, lo: 0 }
}

/// The agent delegator predeploy's address, `0xCCCCCCCC00…01`.
pub fn sci_agent_delegator_address() -> (r: Address)
    ensures
        r == (Address { hi: 0xCCCCCCCC, lo: 1 }),
{
    Address { hi: 0xCCCCCCCC, lo: 1 }
}

/// `true` iff `address` hosts an SCI precompile.
pub fn is_sci_precompile_address(address: &Address) -> (r: bool)
    ensures
        r == (*address == spec_account_keychain_address() || *address
            == spec_sci_agent_state_address()),
{
    *address == account_keychain_address() || *address == sci_agent_state_address()
}

/// The SCI precompiles.
#[derive(Clone, Copy, Debug, PartialEq, Eq, Structural)]
pub enum SciPrecompile {
    /// Session keys and spending limits.
    AccountKeychain,
    /// Per-session-key protocol state (circuit-breaker flags).
    SciAgentState,
}

/// A resolved SCI precompile: which one, and the hardfork level it gates
/// its selectors on.
#[derive(Clone, Copy, Debug, PartialEq, Eq, Structural)]
pub struct ResolvedPrecompile {
    /// Which precompile.
    pub kind: SciPrecompile,
    /// The hardfork it runs at.
    pub spec: TempoHardfork,
}

/// The SCI precompile hosted at `address`, if any, as resolved: the keychain
/// or the agent state, running at the launch hardfork.
pub open spec fn spec_lookup_precompile(address: Address) -> Option<ResolvedPrecompile> {
    if address == spec_account_keychain_address() {
        Some(ResolvedPrecompile { kind: SciPrecompile::AccountKeychain, spec: spec_sci_launch_hardfork() })
    } else if address == spec_sci_agent_state_address() {
        Some(ResolvedPrecompile { kind: SciPrecompile::SciAgentState, spec: spec_sci_launch_hardfork() })
    } else {
        None
    }
}

/// The SCI precompile hosted at `address`, if any, created at the launch
/// hardfork.
pub fn lookup_precompile(address: &Address) -> (r: Option<ResolvedPrecompile>)
    ensures
        r == spec_lookup_precompile(*address),
{
    let spec = sci_launch_hardfork();
    if *address == account_keychain_address() {
        Some(ResolvedPrecompile { kind: SciPrecompile::AccountKeychain, spec })
    } else if *address == sci_agent_state_address() {
        Some(ResolvedPrecompile { kind: SciPrecompile::SciAgentState, spec })
    } else {
        None
    }
}

/// Law: the address test and the lookup agree: an address hosts a
/// precompile exactly when the lookup resolves it, and every resolved
/// precompile runs at the launch hardfork T5.
pub proof fn lemma_lookup_agrees_with_address_test(address: Address)
    ensures
        (address == spec_account_keychain_address() || address == spec_sci_agent_state_address())
            <==> spec_lookup_precompile(address) is Some,
        spec_lookup_precompile(address) matches Some(p) ==> p.spec == TempoHardfork::T5 && p.spec.rank() >= 5,
{
}

/// A selector schedule at a given hardfork boundary.
#[derive(Clone, Copy, Debug)]
pub struct SelectorSchedule<'a> {
    hardfork: TempoHardfork,
    added: &'a [u32],
    dropped: &'a [u32],
}

impl<'a> SelectorSchedule<'a> {
    /// The schedule's boundary.
    pub closed spec fn boundary(self) -> TempoHardfork {
        self.hardfork
    }

    /// Selectors introduced at the boundary.
    pub closed spec fn added_at(self) -> Seq<u32> {
        self.added@
    }

    /// Selectors removed at the boundary.
    pub closed spec fn dropped_at(self) -> Seq<u32> {
        self.dropped@
    }

    /// `true` iff this schedule gates out `selector` under `active`: a
    /// selector dropped at the boundary once the boundary is reached, or one
    /// added at the boundary before it is reached.
    pub open spec fn spec_rejects(self, selector: u32, active: TempoHardfork) -> bool {
        if self.boundary().rank() <= active.rank() {
            self.dropped_at().contains(selector)
        } else {
            self.added_at().contains(selector)
        }
    }

    /// A schedule anchored at `hardfork` with no selectors registered.
    pub fn new(hardfork: TempoHardfork) -> (r: Self)
        ensures
            r.boundary() == hardfork,
            r.added_at().len() == 0,
            r.dropped_at().len() == 0,
    {
        SelectorSchedule { hardfork, added: &[], dropped: &[] }
    }

    /// Registers the selectors introduced at this boundary.
    pub fn with_added(self, selectors: &'a [u32]) -> (r: Self)
        ensures
            r.boundary() == self.boundary(),
            r.added_at() == selectors@,
            r.dropped_at() == self.dropped_at(),
    {
        SelectorSchedule { hardfork: self.hardfork, added: selectors, dropped: self.dropped }
    }

    /// Registers the selectors removed at this boundary.
    pub fn with_dropped(self, selectors: &'a [u32]) -> (r: Self)
        ensures
            r.boundary() == self.boundary(),
            r.added_at() == self.added_at(),
            r.dropped_at() == selectors@,
    {
        SelectorSchedule { hardfork: self.hardfork, added: self.added, dropped: selectors }
    }

    /// Whether this schedule gates out `selector` under `active`.
    pub fn rejects(&self, selector: u32, active: TempoHardfork) -> (r: bool)
        ensures
            r == self.spec_rejects(selector, active),
    {
        let list = if self.hardfork.is_at_or_before(&active) {
            self.dropped
        } else {
            self.added
        };
        contains_selector(list, selector)
    }
}

/// `true` iff `list` holds `selector`.
fn contains_selector(list: &[u32], selector: u32) -> (r: bool)
    ensures
        r == list@.contains(selector),
{
    let n = list.len();
    let mut i: usize = 0;
    while i < n
        invariant
            n == list@.len(),
            i <= n,
            forall|k: int| 0 <= k < i ==> list@[k] != selector,
        decreases n - i,
    {
        if list[i] == selector {
            return true;
        }
        i = i + 1;
    }
    false
}

/// `true` iff some schedule gates out `selector` under `active`.
pub open spec fn any_rejects(schedules: Seq<SelectorSchedule>, selector: u32, active: TempoHardfork) -> bool {
    exists|i: int| 0 <= i < schedules.len() && schedules[i].spec_rejects(selector, active)
}

/// Why calldata failed to decode.
#[derive(Clone, Copy, Debug, PartialEq, Eq, Structural)]
pub enum CallDecodeError {
    /// The selector names no function of the interface.
    UnknownSelector(u32),
    /// The calldata is malformed (too short, bad arguments).
    Invalid,
}

/// What the routing of a precompile call decided.
#[derive(Debug)]
pub enum Routed<T> {
    /// Answer the call with this result without running its body.
    Respond(PrecompileResult),
    /// Run the body on the decoded call.
    Run(T),
}

/// The routing decision for a call, given the storage context's hardfork and
/// gas used so far:
///
/// - calldata shorter than a selector reverts with no data from T1 on, and
///   halts before;
/// - a selector some schedule gates out reverts with `UnknownFunctionSelector`;
/// - a decoded call runs; an unknown selector reverts with
///   `UnknownFunctionSelector`; any other decoding failure reverts with no data.
pub open spec fn spec_route<T>(
    calldata: Seq<u8>,
    schedules: Seq<SelectorSchedule>,
    spec: TempoHardfork,
    gas_used: u64,
    decoded: Result<T, CallDecodeError>,
    r: Routed<T>,
) -> bool {
    if calldata.len() < 4 {
        if spec.rank() >= 1 {
            r matches Routed::Respond(Ok(o)) && o.status == ExecutionStatus::Revert && o.gas_used
                == gas_used && o.bytes@.len() == 0
        } else {
            r matches Routed::Respond(Ok(o)) && o.status matches ExecutionStatus::Halt(
                PrecompileHalt::Other(m),
            ) && m@ == "Invalid input: missing function selector"@
        }
    } else {
        let sel = be_nat(calldata.subrange(0, 4)) as u32;
        if any_rejects(schedules, sel, spec) {
            r matches Routed::Respond(Ok(o)) && o.status == ExecutionStatus::Revert && o.gas_used
                == gas_used && o.bytes@ == revert_payload(
                TempoPrecompileError::UnknownFunctionSelector(sel),
            ).unwrap()
        } else {
            match decoded {
                Ok(call) => r == Routed::Run(call),
                Err(CallDecodeError::UnknownSelector(s)) => r matches Routed::Respond(Ok(o))
                    && o.status == ExecutionStatus::Revert && o.gas_used == gas_used && o.bytes@
                    == revert_payload(TempoPrecompileError::UnknownFunctionSelector(s)).unwrap(),
                Err(CallDecodeError::Invalid) => r matches Routed::Respond(Ok(o)) && o.status
                    == ExecutionStatus::Revert && o.gas_used == gas_used && o.bytes@.len() == 0,
            }
        }
    }
}

/// Applies the hardfork selector schedules and the decoding outcome; see
/// [`spec_route`].
pub fn dispatch_call<T>(
    calldata: &[u8],
    hardforks: &[SelectorSchedule],
    spec: TempoHardfork,
    gas_used: u64,
    decoded: Result<T, CallDecodeError>,
) -> (r: Routed<T>)
    ensures
        spec_route(calldata@, hardforks@, spec, gas_used, decoded, r),
{
    if calldata.len() < 4 {
        if spec.is_t1() {
            return Routed::Respond(Ok(PrecompileOutput::revert(gas_used, Vec::new(), 0)));
        } else {
            return Routed::Respond(
                Ok(
                    PrecompileOutput::halt(
                        PrecompileHalt::Other("Invalid input: missing function selector".to_string()),
                        0,
                    ),
                ),
            );
        }
    }
    let selector = read_selector(calldata);
    let n = hardforks.len();
    let mut i: usize = 0;
    while i < n
        invariant
            n == hardforks@.len(),
            i <= n,
            forall|k: int| 0 <= k < i ==> !hardforks@[k].spec_rejects(selector, spec),
            calldata@.len() >= 4,
            selector as nat == be_nat(calldata@.subrange(0, 4)),
        decreases n - i,
    {
        if hardforks[i].rejects(selector, spec) {
            assert(hardforks@[i as int].spec_rejects(selector, spec));
            assert(be_nat(calldata@.subrange(0, 4)) as u32 == selector);
            return Routed::Respond(
                TempoPrecompileError::UnknownFunctionSelector(selector).into_precompile_result(
                    gas_used,
                    0,
                ),
            );
        }
        i = i + 1;
    }
    match decoded {
        Ok(call) => Routed::Run(call),
        Err(CallDecodeError::UnknownSelector(s)) => Routed::Respond(
            TempoPrecompileError::UnknownFunctionSelector(s).into_precompile_result(gas_used, 0),
        ),
        Err(CallDecodeError::Invalid) => Routed::Respond(
            Ok(PrecompileOutput::revert(gas_used, Vec::new(), 0)),
        ),
    }
}

/// Charges the calldata input cost; `Some` carries the out-of-gas halt to
/// answer with when the gas does not cover it, in which case nothing is
/// charged.
pub fn charge_input_cost(gas: &mut GasTracker, calldata: &[u8]) -> (r: Option<PrecompileResult>)
    ensures
        r is None <==> sat_add_u64(old(gas)@.used as int, (words(calldata@.len()) * 6) as int) <= old(
            gas,
        )@.limit,
        r is None ==> final(gas)@.used == sat_add_u64(old(gas)@.used as int, (words(calldata@.len()) * 6) as int),
        r is Some ==> final(gas)@ == old(gas)@,
        r matches Some(Ok(o)) ==> o.status == ExecutionStatus::Halt(PrecompileHalt::OutOfGas),
        r matches Some(res) ==> res is Ok,
        old(gas).wf() ==> final(gas).wf(),
{
    let cost = input_cost(calldata.len());
    if gas.deduct_gas(cost).is_err() {
        return Some(Ok(PrecompileOutput::halt(PrecompileHalt::OutOfGas, 0)));
    }
    None
}

/// The guard every SCI precompile applies first: anything but a direct call
/// (e.g. a DELEGATECALL) reverts with `DelegateCallNotAllowed`.
pub fn delegate_call_guard(is_direct_call: bool) -> (r: Option<PrecompileResult>)
    ensures
        r is None <==> is_direct_call,
        r matches Some(res) ==> (res matches Ok(o) && o.status == ExecutionStatus::Revert
            && o.gas_used == 0 && o.bytes@ == selector_seq(DELEGATE_CALL_NOT_ALLOWED_SELECTOR)),
{
    if !is_direct_call {
        return Some(
            Ok(PrecompileOutput::revert(0, encode_no_args(DELEGATE_CALL_NOT_ALLOWED_SELECTOR), 0)),
        );
    }
    None
}

/// The guard of state-mutating functions: under a STATICCALL they revert with
/// `StaticCallNotAllowed`.
pub fn static_call_guard(is_static: bool) -> (r: Option<PrecompileResult>)
    ensures
        r is None <==> !is_static,
        r matches Some(res) ==> (res matches Ok(o) && o.status == ExecutionStatus::Revert
            && o.gas_used == 0 && o.bytes@ == selector_seq(STATIC_CALL_NOT_ALLOWED_SELECTOR)),
{
    if is_static {
        return Some(
            Ok(PrecompileOutput::revert(0, encode_no_args(STATIC_CALL_NOT_ALLOWED_SELECTOR), 0)),
        );
    }
    None
}

/// Sets the gas a body's result reports to the storage context's gas used.
pub fn with_gas_used(res: PrecompileResult, gas_used: u64) -> (r: PrecompileResult)
    ensures
        match (res, r) {
            (Ok(a), Ok(b)) => b.gas_used == gas_used && b.status == a.status && b.bytes@ == a.bytes@
                && b.gas_refunded == a.gas_refunded,
            (Err(a), Err(b)) => a == b,
            _ => false,
        },
{
    match res {
        Ok(mut o) => {
            o.gas_used = gas_used;
            Ok(o)
        },
        Err(e) => Err(e),
    }
}

} // verus!
