//! The proof client's precompile provider: which accelerated precompiles are
//! cycle-tracked, which addresses it must treat as precompiles to agree with
//! the execution layer, and how a precompile's result becomes the
//! interpreter's result.
use vstd::prelude::*;
use crate::cycle_tracker::names;
use crate::dispatch::{
    ResolvedPrecompile, is_sci_precompile_address, lookup_precompile, spec_account_keychain_address,
    spec_lookup_precompile, spec_sci_agent_state_address,
};
use crate::precompile::{HostPrecompileOutput, PrecompileError};
use crate::primitives::Address;

verus! {

/// The precompiles the provider distinguishes.
#[derive(Clone, Copy, Debug, PartialEq, Eq, Structural)]
pub enum PrecompileKind {
    Bn254Add,
    Bn254Mul,
    Bn254Pairing,
    EcRec,
    P256Verify,
    KzgPointEvaluation,
    /// Any other precompile.
    Other,
}

/// The cycle tracker name of an accelerated precompile; `None` for those
/// that are not tracked.
pub fn get_precompile_tracker_name(id: &PrecompileKind) -> (r: Option<&'static str>)
    ensures
        (*id is Other) <==> r is None,
        *id == PrecompileKind::Bn254Add ==> r == Some(names::BN_ADD),
        *id == PrecompileKind::Bn254Mul ==> r == Some(names::BN_MUL),
        *id == PrecompileKind::Bn254Pairing ==> r == Some(names::BN_PAIR),
        *id == PrecompileKind::EcRec ==> r == Some(names::EC_RECOVER),
        *id == PrecompileKind::P256Verify ==> r == Some(names::P256_VERIFY),
        *id == PrecompileKind::KzgPointEvaluation ==> r == Some(names::KZG_EVAL),
{
    match id {
        PrecompileKind::Bn254Add => Some(names::BN_ADD),
        PrecompileKind::Bn254Mul => Some(names::BN_MUL),
        PrecompileKind::Bn254Pairing => Some(names::BN_PAIR),
        PrecompileKind::EcRec => Some(names::EC_RECOVER),
        PrecompileKind::P256Verify => Some(names::P256_VERIFY),
        PrecompileKind::KzgPointEvaluation => Some(names::KZG_EVAL),
        PrecompileKind::Other => None,
    }
}

/// The provider treats an address as a precompile when it hosts an SCI
/// precompile or when the standard set holds it, exactly as the execution
/// layer's lookup does.
pub fn contains(address: &Address, in_standard_set: bool) -> (r: bool)
    ensures
        r == (*address == spec_account_keychain_address() || *address
            == spec_sci_agent_state_address() || in_standard_set),
{
    is_sci_precompile_address(address) || in_standard_set
}

/// Where the provider sends a call to a precompile address.
#[derive(Clone, Copy, Debug, PartialEq, Eq, Structural)]
pub enum PrecompileRoute {
    /// An SCI precompile, resolved as the execution layer resolves it; its
    /// reverted outputs are reported as reverts.
    Sci(ResolvedPrecompile),
    /// A precompile of the standard set (accelerated where it can be); its
    /// outputs are always reported as returns.
    Standard,
    /// No precompile: the provider answers `None` and the call runs the
    /// account's code.
    Absent,
}

impl PrecompileRoute {
    /// Whether a reverted output on this route is reported as a revert:
    /// `true` for the SCI precompiles only.
    pub fn honor_revert(&self) -> (r: bool)
        ensures
            r == (*self is Sci),
    {
        match self {
            PrecompileRoute::Sci(_) => true,
            _ => false,
        }
    }
}

/// Routes a call by its bytecode address: an SCI precompile address goes to
/// that precompile (before the standard set is consulted, whatever it holds),
/// otherwise an address of the standard set to the standard precompile, and
/// any other address to no precompile.
pub fn route_precompile(bytecode_address: &Address, in_standard_set: bool) -> (r: PrecompileRoute)
    ensures
        (*bytecode_address == spec_account_keychain_address() || *bytecode_address
            == spec_sci_agent_state_address()) ==> r == PrecompileRoute::Sci(
            spec_lookup_precompile(*bytecode_address).unwrap(),
        ),
        !(*bytecode_address == spec_account_keychain_address() || *bytecode_address
            == spec_sci_agent_state_address()) ==> r == (if in_standard_set {
            PrecompileRoute::Standard
        } else {
            PrecompileRoute::Absent
        }),
        (r is Absent) <==> !contains_spec(*bytecode_address, in_standard_set),
{
    match lookup_precompile(bytecode_address) {
        Some(p) => PrecompileRoute::Sci(p),
        None => {
            if in_standard_set {
                PrecompileRoute::Standard
            } else {
                PrecompileRoute::Absent
            }
        },
    }
}

/// Whether the provider treats an address as a precompile; see [`contains`].
pub open spec fn contains_spec(address: Address, in_standard_set: bool) -> bool {
    address == spec_account_keychain_address() || address == spec_sci_agent_state_address()
        || in_standard_set
}

/// The interpreter's verdict on a precompile call.
#[derive(Clone, Copy, Debug, PartialEq, Eq, Structural)]
pub enum InstructionResult {
    Return,
    Revert,
    PrecompileOOG,
    PrecompileError,
}

/// The interpreter's result of a precompile call.
#[derive(Clone, Debug)]
pub struct InterpreterOutcome {
    /// The verdict.
    pub result: InstructionResult,
    /// The call's gas limit.
    pub gas_limit: u64,
    /// Gas left.
    pub gas_remaining: u64,
    /// Output bytes.
    pub output: Vec<u8>,
}

/// Turns a precompile result into the interpreter's: a fatal error aborts
/// with its message; another error keeps all gas and reports out-of-gas or a
/// precompile error; an output is charged its gas and returns its bytes,
/// as a revert when `honor_revert` is set and the output reverted, as a
/// return otherwise. (The SCI precompiles are run with `honor_revert`; the
/// standard ones without.)
pub fn interpret_precompile_result(
    gas_limit: u64,
    result: Result<HostPrecompileOutput, PrecompileError>,
    honor_revert: bool,
) -> (r: Result<InterpreterOutcome, String>)
    requires
        result matches Ok(o) ==> o.gas_used <= gas_limit,
    ensures
        result matches Err(PrecompileError::Fatal(m)) ==> r == Err::<InterpreterOutcome, String>(m),
        result matches Err(PrecompileError::OutOfGas) ==> (r matches Ok(out) && out.result
            == InstructionResult::PrecompileOOG && out.gas_remaining == gas_limit
            && out.output@.len() == 0),
        result matches Err(PrecompileError::Other(_)) ==> (r matches Ok(out) && out.result
            == InstructionResult::PrecompileError && out.gas_remaining == gas_limit
            && out.output@.len() == 0),
        result matches Ok(o) ==> (r matches Ok(out) && out.result == (if honor_revert && o.reverted {
            InstructionResult::Revert
        } else {
            InstructionResult::Return
        }) && out.gas_remaining == gas_limit - o.gas_used && out.output@ == o.bytes@),
        r matches Ok(out) ==> out.gas_limit == gas_limit,
{
    match result {
        Ok(output) => {
            let verdict = if honor_revert && output.reverted {
                InstructionResult::Revert
            } else {
                InstructionResult::Return
            };
            Ok(
                InterpreterOutcome {
                    result: verdict,
                    gas_limit,
                    gas_remaining: gas_limit - output.gas_used,
                    output: output.bytes,
                },
            )
        },
        Err(PrecompileError::Fatal(e)) => Err(e),
        Err(e) => {
            let verdict = if e.is_oog() {
                InstructionResult::PrecompileOOG
            } else {
                InstructionResult::PrecompileError
            };
            Ok(
                InterpreterOutcome {
                    result: verdict,
                    gas_limit,
                    gas_remaining: gas_limit,
                    output: Vec::new(),
                },
            )
        },
    }
}

} // verus!
