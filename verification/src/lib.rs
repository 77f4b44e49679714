//! SCI Chain protocol logic: the agent permission sandbox (session-key hook,
//! circuit breaker, spending-limit metering), the precompile result model and
//! its boundary conversion, calldata classification, and the AA transaction
//! type's encodings.
use vstd::prelude::*;

pub mod aa;
pub mod aa_codec;
pub mod abi;
pub mod agent_state;
pub mod classify;
pub mod cycle_tracker;
pub mod dispatch;
pub mod error;
pub mod gas;
pub mod handler;
pub mod hook;
pub mod keychain;
pub mod precompile;
pub mod primitives;
pub mod receipt;
pub mod rlp;
pub mod storage_gas;
pub mod tx_type;
pub mod zkvm;

verus! {

} // verus!
