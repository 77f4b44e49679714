//! Precompile results: the status-carrying output the SCI precompiles
//! produce, and its fold into the plain success / revert / error shape the
//! host EVM consumes.
use vstd::prelude::*;

verus! {

/// Why a precompile halted.
#[derive(Clone, Debug, PartialEq, Eq)]
pub enum PrecompileHalt {
    /// Precompile ran out of gas.
    OutOfGas,
    /// Fatal / uncategorised halt; carries an explanatory message.
    Other(String),
}

/// Execution outcome of a precompile call.
#[derive(Clone, Debug, PartialEq, Eq)]
pub enum ExecutionStatus {
    /// Call succeeded; the output bytes carry the ABI-encoded return value.
    Success,
    /// Call reverted with ABI-encoded error bytes.
    Revert,
    /// Call halted (out of gas or fatal).
    Halt(PrecompileHalt),
}

impl ExecutionStatus {
    /// Returns `true` if the call succeeded.
    pub fn is_success(&self) -> (r: bool)
        ensures
            r == (*self is Success),
    {
        match self {
            ExecutionStatus::Success => true,
            _ => false,
        }
    }

    /// Returns `true` if the call reverted with ABI-encoded data.
    pub fn is_revert(&self) -> (r: bool)
        ensures
            r == (*self is Revert),
    {
        match self {
            ExecutionStatus::Revert => true,
            _ => false,
        }
    }

    /// Returns `true` if the call halted.
    pub fn is_halt(&self) -> (r: bool)
        ensures
            r == (*self is Halt),
    {
        match self {
            ExecutionStatus::Halt(_) => true,
            _ => false,
        }
    }
}

impl Default for ExecutionStatus {
    /// A call succeeds unless it reverts or halts.
    fn default() -> (r: ExecutionStatus)
        ensures
            r == ExecutionStatus::Success,
    {
        ExecutionStatus::Success
    }
}

/// Errors a precompile reports to the host instead of an output.
#[derive(Clone, Debug, PartialEq, Eq)]
pub enum PrecompileError {
    /// Out of gas.
    OutOfGas,
    /// Unrecoverable error; aborts block execution.
    Fatal(String),
    /// Any other failure, with its message.
    Other(String),
}

impl PrecompileError {
    /// `true` iff this is the out-of-gas error.
    pub fn is_oog(&self) -> (r: bool)
        ensures
            r == (*self is OutOfGas),
    {
        match self {
            PrecompileError::OutOfGas => true,
            _ => false,
        }
    }
}

/// Output of an SCI precompile call.
///
/// The state-gas and reservoir fields exist for the EIP-8037 accounting that
/// SCI does not adopt; every constructor sets them to zero.
#[derive(Clone, Debug)]
pub struct PrecompileOutput {
    /// Gas used by the precompile.
    pub gas_used: u64,
    /// Gas refunded by the precompile.
    pub gas_refunded: i64,
    /// Output bytes.
    pub bytes: Vec<u8>,
    /// State gas consumed (always zero).
    pub state_gas_used: u64,
    /// Remaining state-gas reservoir (always zero).
    pub reservoir: u64,
    /// Execution outcome.
    pub status: ExecutionStatus,
}

/// Result of an SCI precompile call.
pub type PrecompileResult = Result<PrecompileOutput, PrecompileError>;

impl PrecompileOutput {
    /// A successful output; the reservoir argument is ignored.
    pub fn new(gas_used: u64, bytes: Vec<u8>, _reservoir: u64) -> (r: PrecompileOutput)
        ensures
            r.gas_used == gas_used,
            r.gas_refunded == 0,
            r.bytes == bytes,
            r.state_gas_used == 0,
            r.reservoir == 0,
            r.status == ExecutionStatus::Success,
    {
        PrecompileOutput {
            gas_used,
            gas_refunded: 0,
            bytes,
            state_gas_used: 0,
            reservoir: 0,
            status: ExecutionStatus::Success,
        }
    }

    /// A reverted output carrying `bytes`; the reservoir argument is ignored.
    pub fn revert(gas_used: u64, bytes: Vec<u8>, _reservoir: u64) -> (r: PrecompileOutput)
        ensures
            r.gas_used == gas_used,
            r.gas_refunded == 0,
            r.bytes == bytes,
            r.state_gas_used == 0,
            r.reservoir == 0,
            r.status == ExecutionStatus::Revert,
    {
        PrecompileOutput {
            gas_used,
            gas_refunded: 0,
            bytes,
            state_gas_used: 0,
            reservoir: 0,
            status: ExecutionStatus::Revert,
        }
    }

    /// A halted output with no gas used and no bytes; the reservoir argument
    /// is ignored.
    pub fn halt(halt: PrecompileHalt, _reservoir: u64) -> (r: PrecompileOutput)
        ensures
            r.gas_used == 0,
            r.gas_refunded == 0,
            r.bytes@.len() == 0,
            r.state_gas_used == 0,
            r.reservoir == 0,
            r.status == ExecutionStatus::Halt(halt),
    {
        PrecompileOutput {
            gas_used: 0,
            gas_refunded: 0,
            bytes: Vec::new(),
            state_gas_used: 0,
            reservoir: 0,
            status: ExecutionStatus::Halt(halt),
        }
    }

    /// `true` iff the output is a revert.
    pub fn is_revert(&self) -> (r: bool)
        ensures
            r == (self.status is Revert),
    {
        self.status.is_revert()
    }

    /// `true` iff the output is a success.
    pub fn is_success(&self) -> (r: bool)
        ensures
            r == (self.status is Success),
    {
        self.status.is_success()
    }
}

/// The host EVM's precompile output: a reverted flag in place of a status.
#[derive(Clone, Debug)]
pub struct HostPrecompileOutput {
    /// Gas used by the precompile.
    pub gas_used: u64,
    /// Gas refunded by the precompile.
    pub gas_refunded: i64,
    /// Output bytes.
    pub bytes: Vec<u8>,
    /// Whether the call reverted.
    pub reverted: bool,
}

/// What [`to_revm34`] makes of an SCI precompile result.
pub open spec fn folded(out: PrecompileResult) -> Result<(u64, i64, Seq<u8>, bool), PrecompileError> {
    match out {
        Err(e) => Err(e),
        Ok(po) => match po.status {
            ExecutionStatus::Halt(PrecompileHalt::OutOfGas) => Err(PrecompileError::OutOfGas),
            ExecutionStatus::Halt(PrecompileHalt::Other(msg)) => Err(PrecompileError::Other(msg)),
            ExecutionStatus::Revert => Ok((po.gas_used, po.gas_refunded, po.bytes@, true)),
            ExecutionStatus::Success => Ok((po.gas_used, po.gas_refunded, po.bytes@, false)),
        },
    }
}

/// Folds an SCI precompile result into the host shape: errors pass through,
/// an out-of-gas halt becomes the out-of-gas error, any other halt becomes an
/// `Other` error with its message, and success / revert keep gas used, gas
/// refunded and bytes, with the reverted flag set for a revert.
pub fn to_revm34(out: PrecompileResult) -> (r: Result<HostPrecompileOutput, PrecompileError>)
    ensures
        match (r, folded(out)) {
            (Ok(o), Ok((g, rf, b, rev))) => o.gas_used == g && o.gas_refunded == rf && o.bytes@
                == b && o.reverted == rev,
            (Err(e1), Err(e2)) => e1 == e2,
            _ => false,
        },
{
    match out {
        Err(e) => Err(e),
        Ok(po) => match po.status {
            ExecutionStatus::Halt(PrecompileHalt::OutOfGas) => Err(PrecompileError::OutOfGas),
            ExecutionStatus::Halt(PrecompileHalt::Other(msg)) => Err(PrecompileError::Other(msg)),
            ExecutionStatus::Revert => Ok(
                HostPrecompileOutput {
                    gas_used: po.gas_used,
                    gas_refunded: po.gas_refunded,
                    bytes: po.bytes,
                    reverted: true,
                },
            ),
            ExecutionStatus::Success => Ok(
                HostPrecompileOutput {
                    gas_used: po.gas_used,
                    gas_refunded: po.gas_refunded,
                    bytes: po.bytes,
                    reverted: false,
                },
            ),
        },
    }
}

} // verus!
