//! Errors of the SCI precompiles, their classification (business error vs
//! system fault), their ABI revert payloads, and their conversion into a
//! precompile result.
use vstd::prelude::*;
use crate::abi::{
    KEY_TRIPPED_SELECTOR, PANIC_SELECTOR, UNAUTHORIZED_SELECTOR, address_word, be_bytes,
    encode_address_arg, encode_no_args, encode_unknown_selector, one_word_payload, read_selector,
    selector_seq, unknown_selector_payload, word,
};
use crate::precompile::{PrecompileError, PrecompileHalt, PrecompileOutput, PrecompileResult, ExecutionStatus};
use crate::primitives::{Address, U256, be_nat};

verus! {

/// Error `UnauthorizedCaller()` of the account keychain.
pub const UNAUTHORIZED_CALLER_SELECTOR: u32 = 0x5c427cd9;

/// Error `SpendingLimitExceeded()` of the account keychain.
pub const SPENDING_LIMIT_EXCEEDED_SELECTOR: u32 = 0x8a9e71ea;

/// Solidity panic codes.
#[derive(Clone, Copy, Debug, PartialEq, Eq, Structural)]
pub enum PanicKind {
    Generic,
    Assert,
    UnderOverflow,
    DivisionByZero,
    EnumConversionError,
    StorageEncodingError,
    EmptyArrayPop,
    ArrayOutOfBounds,
    ResourceError,
    InvalidInternalFunction,
}

impl PanicKind {
    /// The Solidity panic code of this kind.
    pub open spec fn spec_code(self) -> nat {
        match self {
            PanicKind::Generic => 0x00,
            PanicKind::Assert => 0x01,
            PanicKind::UnderOverflow => 0x11,
            PanicKind::DivisionByZero => 0x12,
            PanicKind::EnumConversionError => 0x21,
            PanicKind::StorageEncodingError => 0x22,
            PanicKind::EmptyArrayPop => 0x31,
            PanicKind::ArrayOutOfBounds => 0x32,
            PanicKind::ResourceError => 0x41,
            PanicKind::InvalidInternalFunction => 0x51,
        }
    }

    /// The Solidity panic code of this kind.
    pub fn code(&self) -> (r: u32)
        ensures
            r as nat == self.spec_code(),
    {
        match self {
            PanicKind::Generic => 0x00,
            PanicKind::Assert => 0x01,
            PanicKind::UnderOverflow => 0x11,
            PanicKind::DivisionByZero => 0x12,
            PanicKind::EnumConversionError => 0x21,
            PanicKind::StorageEncodingError => 0x22,
            PanicKind::EmptyArrayPop => 0x31,
            PanicKind::ArrayOutOfBounds => 0x32,
            PanicKind::ResourceError => 0x41,
            PanicKind::InvalidInternalFunction => 0x51,
        }
    }
}

/// Errors of the agent-state (circuit breaker) precompile.
#[derive(Clone, Copy, Debug, PartialEq, Eq, Structural)]
pub enum SciAgentStateError {
    /// A caller other than the circuit breaker invoked a mutator.
    Unauthorized,
    /// The session key of an agent transaction is tripped.
    KeyTripped(Address),
}

impl SciAgentStateError {
    /// The `Unauthorized` error.
    pub fn unauthorized_caller() -> (r: SciAgentStateError)
        ensures
            r == SciAgentStateError::Unauthorized,
    {
        SciAgentStateError::Unauthorized
    }

    /// The `KeyTripped` error for `session_key`.
    pub fn key_tripped(session_key: Address) -> (r: SciAgentStateError)
        ensures
            r == SciAgentStateError::KeyTripped(session_key),
    {
        SciAgentStateError::KeyTripped(session_key)
    }

    /// The ABI encoding of this error.
    pub open spec fn payload(self) -> Seq<u8> {
        match self {
            SciAgentStateError::Unauthorized => selector_seq(UNAUTHORIZED_SELECTOR),
            SciAgentStateError::KeyTripped(a) => one_word_payload(KEY_TRIPPED_SELECTOR, a@),
        }
    }

    /// ABI-encodes this error.
    pub fn abi_encode(&self) -> (r: Vec<u8>)
        ensures
            r@ == self.payload(),
    {
        match self {
            SciAgentStateError::Unauthorized => encode_no_args(UNAUTHORIZED_SELECTOR),
            SciAgentStateError::KeyTripped(a) => encode_address_arg(KEY_TRIPPED_SELECTOR, a),
        }
    }
}

/// Errors of the account keychain precompile.
#[derive(Clone, Debug, PartialEq, Eq)]
pub enum AccountKeychainError {
    /// The caller may not administer this key.
    UnauthorizedCaller,
    /// A batch total exceeds the key's remaining spending limit.
    SpendingLimitExceeded,
    /// Any other keychain error, as the keychain ABI-encoded it.
    Encoded(Vec<u8>),
}

impl AccountKeychainError {
    /// The `UnauthorizedCaller` error.
    pub fn unauthorized_caller() -> (r: AccountKeychainError)
        ensures
            r is UnauthorizedCaller,
    {
        AccountKeychainError::UnauthorizedCaller
    }

    /// The `SpendingLimitExceeded` error.
    pub fn spending_limit_exceeded() -> (r: AccountKeychainError)
        ensures
            r is SpendingLimitExceeded,
    {
        AccountKeychainError::SpendingLimitExceeded
    }

    /// The ABI encoding of this error.
    pub open spec fn payload(self) -> Seq<u8> {
        match self {
            AccountKeychainError::UnauthorizedCaller => selector_seq(UNAUTHORIZED_CALLER_SELECTOR),
            AccountKeychainError::SpendingLimitExceeded => selector_seq(
                SPENDING_LIMIT_EXCEEDED_SELECTOR,
            ),
            AccountKeychainError::Encoded(b) => b@,
        }
    }

    /// ABI-encodes this error.
    pub fn abi_encode(&self) -> (r: Vec<u8>)
        ensures
            r@ == self.payload(),
    {
        match self {
            AccountKeychainError::UnauthorizedCaller => encode_no_args(UNAUTHORIZED_CALLER_SELECTOR),
            AccountKeychainError::SpendingLimitExceeded => encode_no_args(
                SPENDING_LIMIT_EXCEEDED_SELECTOR,
            ),
            AccountKeychainError::Encoded(b) => b.clone(),
        }
    }
}

/// Top-level error type for all SCI precompile operations.
#[derive(Clone, Debug, PartialEq, Eq)]
pub enum TempoPrecompileError {
    /// EVM panic (arithmetic under/overflow, out-of-bounds access, ...).
    Panic(PanicKind),
    /// Error from the account keychain precompile.
    AccountKeychainError(AccountKeychainError),
    /// Error from the agent state precompile.
    SciAgentStateError(SciAgentStateError),
    /// Gas limit exceeded during precompile execution.
    OutOfGas,
    /// The calldata's selector (big-endian) matches no function.
    UnknownFunctionSelector(u32),
    /// Unrecoverable internal error (e.g. database failure).
    Fatal(String),
}

/// The revert payload of an error, or `None` for the errors that do not
/// revert (out of gas halts, fatal errors abort).
pub open spec fn revert_payload(e: TempoPrecompileError) -> Option<Seq<u8>> {
    match e {
        TempoPrecompileError::Panic(k) => Some(one_word_payload(PANIC_SELECTOR, k.spec_code())),
        TempoPrecompileError::AccountKeychainError(k) => Some(k.payload()),
        TempoPrecompileError::SciAgentStateError(s) => Some(s.payload()),
        TempoPrecompileError::OutOfGas => None,
        TempoPrecompileError::UnknownFunctionSelector(sel) => Some(unknown_selector_payload(sel)),
        TempoPrecompileError::Fatal(_) => None,
    }
}

/// System faults (state may be inconsistent) as opposed to business errors.
pub open spec fn spec_is_system_error(e: TempoPrecompileError) -> bool {
    e is OutOfGas || e is Fatal || e is Panic
}

impl TempoPrecompileError {
    /// `true` for system-level failures that must be propagated rather than
    /// swallowed: out of gas, fatal errors and panics.
    pub fn is_system_error(&self) -> (r: bool)
        ensures
            r == spec_is_system_error(*self),
    {
        match self {
            TempoPrecompileError::OutOfGas | TempoPrecompileError::Fatal(_)
            | TempoPrecompileError::Panic(_) => true,
            TempoPrecompileError::AccountKeychainError(_)
            | TempoPrecompileError::SciAgentStateError(_)
            | TempoPrecompileError::UnknownFunctionSelector(_) => false,
        }
    }

    /// The arithmetic under/overflow panic.
    pub fn under_overflow() -> (r: TempoPrecompileError)
        ensures
            r == TempoPrecompileError::Panic(PanicKind::UnderOverflow),
    {
        TempoPrecompileError::Panic(PanicKind::UnderOverflow)
    }

    /// The enum conversion panic (Solidity panic `0x21`).
    pub fn enum_conversion_error() -> (r: TempoPrecompileError)
        ensures
            r == TempoPrecompileError::Panic(PanicKind::EnumConversionError),
    {
        TempoPrecompileError::Panic(PanicKind::EnumConversionError)
    }

    /// The array out-of-bounds panic.
    pub fn array_oob() -> (r: TempoPrecompileError)
        ensures
            r == TempoPrecompileError::Panic(PanicKind::ArrayOutOfBounds),
    {
        TempoPrecompileError::Panic(PanicKind::ArrayOutOfBounds)
    }

    /// The revert payload of this error, where it reverts.
    pub fn revert_bytes(&self) -> (r: Option<Vec<u8>>)
        ensures
            match (r, revert_payload(*self)) {
                (Some(b), Some(p)) => b@ == p,
                (None, None) => true,
                _ => false,
            },
    {
        match self {
            TempoPrecompileError::Panic(kind) => {
                let code = kind.code();
                Some(crate::abi::encode_u256_arg(PANIC_SELECTOR, &U256::from_u64(code as u64)))
            },
            TempoPrecompileError::AccountKeychainError(e) => Some(e.abi_encode()),
            TempoPrecompileError::SciAgentStateError(e) => Some(e.abi_encode()),
            TempoPrecompileError::OutOfGas => None,
            TempoPrecompileError::UnknownFunctionSelector(sel) => Some(
                encode_unknown_selector(*sel),
            ),
            TempoPrecompileError::Fatal(_) => None,
        }
    }

    /// Converts this error into a precompile result: an out-of-gas error
    /// becomes a halt, a fatal error becomes a fatal precompile error, and
    /// every other error a revert carrying its ABI encoding and `gas`.
    pub fn into_precompile_result(self, gas: u64, reservoir: u64) -> (r: PrecompileResult)
        ensures
            self is OutOfGas ==> (r matches Ok(o) && o.status == ExecutionStatus::Halt(
                PrecompileHalt::OutOfGas,
            ) && o.gas_used == 0 && o.bytes@.len() == 0),
            self matches TempoPrecompileError::Fatal(m) ==> r == Err::<PrecompileOutput, _>(
                PrecompileError::Fatal(m),
            ),
            revert_payload(self) matches Some(p) ==> (r matches Ok(o) && o.status
                == ExecutionStatus::Revert && o.gas_used == gas && o.bytes@ == p),
            r matches Ok(o) ==> o.reservoir == 0 && o.state_gas_used == 0 && o.gas_refunded == 0,
    {
        match self {
            TempoPrecompileError::OutOfGas => {
                return Ok(PrecompileOutput::halt(PrecompileHalt::OutOfGas, reservoir));
            },
            TempoPrecompileError::Fatal(msg) => {
                return Err(PrecompileError::Fatal(msg));
            },
            _ => {},
        }
        match self.revert_bytes() {
            Some(bytes) => Ok(PrecompileOutput::revert(gas, bytes, reservoir)),
            None => Ok(PrecompileOutput::halt(PrecompileHalt::OutOfGas, reservoir)),
        }
    }
}

/// Converts a precompile operation's outcome into a precompile result: a
/// success becomes a successful output whose bytes are `encode_ok` of the
/// value, an error goes through [`TempoPrecompileError::into_precompile_result`].
pub fn result_into_precompile_result<T, F: FnOnce(T) -> Vec<u8>>(
    res: Result<T, TempoPrecompileError>,
    gas: u64,
    reservoir: u64,
    encode_ok: F,
) -> (r: PrecompileResult)
    requires
        res matches Ok(v) ==> call_requires(encode_ok, (v,)),
    ensures
        res matches Ok(v) ==> (r matches Ok(o) && o.status == ExecutionStatus::Success
            && o.gas_used == gas && call_ensures(encode_ok, (v,), o.bytes)),
        res matches Err(e) ==> match e {
            TempoPrecompileError::OutOfGas => r matches Ok(o) && o.status == ExecutionStatus::Halt(
                PrecompileHalt::OutOfGas,
            ),
            TempoPrecompileError::Fatal(m) => r == Err::<PrecompileOutput, _>(
                PrecompileError::Fatal(m),
            ),
            _ => r matches Ok(o) && o.status == ExecutionStatus::Revert && o.gas_used == gas
                && o.bytes@ == revert_payload(e).unwrap(),
        },
        r matches Ok(o) ==> o.reservoir == 0 && o.state_gas_used == 0 && o.gas_refunded == 0,
{
    match res {
        Ok(v) => Ok(PrecompileOutput::new(gas, encode_ok(v), reservoir)),
        Err(e) => e.into_precompile_result(gas, reservoir),
    }
}

/// A decoded precompile error together with the raw revert bytes.
pub struct DecodedTempoPrecompileError<'a> {
    /// The decoded typed error.
    pub error: TempoPrecompileError,
    /// The ABI-encoded revert bytes as received.
    pub revert_bytes: &'a [u8],
}

/// The errors [`decode_error`] recognizes by selector, as their decoders
/// read them: no-argument errors ignore trailing bytes, `KeyTripped` needs
/// its address word and takes the word's low 20 bytes.
pub open spec fn spec_decode_error(data: Seq<u8>) -> Option<TempoPrecompileError> {
    if data.len() < 4 {
        None
    } else {
        let sel = be_nat(data.subrange(0, 4));
        if sel == UNAUTHORIZED_CALLER_SELECTOR as nat {
            Some(TempoPrecompileError::AccountKeychainError(AccountKeychainError::UnauthorizedCaller))
        } else if sel == SPENDING_LIMIT_EXCEEDED_SELECTOR as nat {
            Some(
                TempoPrecompileError::AccountKeychainError(
                    AccountKeychainError::SpendingLimitExceeded,
                ),
            )
        } else if sel == UNAUTHORIZED_SELECTOR as nat {
            Some(TempoPrecompileError::SciAgentStateError(SciAgentStateError::Unauthorized))
        } else if sel == KEY_TRIPPED_SELECTOR as nat && data.len() >= 36 {
            Some(
                TempoPrecompileError::SciAgentStateError(
                    SciAgentStateError::KeyTripped(
                        Address {
                            hi: be_nat(data.subrange(16, 20)) as u32,
                            lo: be_nat(data.subrange(20, 36)) as u128,
                        },
                    ),
                ),
            )
        } else {
            None
        }
    }
}

/// Decodes revert bytes into a typed error, returning `None` when the data is
/// shorter than 4 bytes, the selector is not one the registry knows, or its
/// arguments are missing.
pub fn decode_error<'a>(data: &'a [u8]) -> (r: Option<DecodedTempoPrecompileError<'a>>)
    ensures
        match (r, spec_decode_error(data@)) {
            (Some(d), Some(e)) => d.error == e && d.revert_bytes@ == data@,
            (None, None) => true,
            _ => false,
        },
{
    if data.len() < 4 {
        return None;
    }
    let sel = read_selector(data);
    let error = if sel == UNAUTHORIZED_CALLER_SELECTOR {
        TempoPrecompileError::AccountKeychainError(AccountKeychainError::UnauthorizedCaller)
    } else if sel == SPENDING_LIMIT_EXCEEDED_SELECTOR {
        TempoPrecompileError::AccountKeychainError(AccountKeychainError::SpendingLimitExceeded)
    } else if sel == UNAUTHORIZED_SELECTOR {
        TempoPrecompileError::SciAgentStateError(SciAgentStateError::Unauthorized)
    } else if sel == KEY_TRIPPED_SELECTOR && data.len() >= 36 {
        let hi = crate::primitives::read_be_u128(data, 16, 4);
        let lo = crate::primitives::read_be_u128(data, 20, 16);
        proof {
            crate::primitives::lemma_be_nat_bound(data@.subrange(16, 20));
            crate::primitives::lemma_pow256_values();
        }
        TempoPrecompileError::SciAgentStateError(
            SciAgentStateError::KeyTripped(Address { hi: hi as u32, lo }),
        )
    } else {
        return None;
    };
    Some(DecodedTempoPrecompileError { error, revert_bytes: data })
}

/// Law: decoding the payload of a registered error gives the error back.
pub proof fn lemma_decode_sci_agent_state_error(e: SciAgentStateError)
    ensures
        spec_decode_error(e.payload()) == Some(TempoPrecompileError::SciAgentStateError(e)),
{
    crate::primitives::lemma_pow256_values();
    crate::abi::lemma_be_nat_of_be_bytes(UNAUTHORIZED_SELECTOR as nat, 4);
    crate::abi::lemma_be_nat_of_be_bytes(KEY_TRIPPED_SELECTOR as nat, 4);
    match e {
        SciAgentStateError::Unauthorized => {
            assert(e.payload().subrange(0, 4) =~= selector_seq(UNAUTHORIZED_SELECTOR));
        },
        SciAgentStateError::KeyTripped(a) => {
            let p = e.payload();
            crate::abi::lemma_be_bytes_len(a@, 32);
            assert(p.subrange(0, 4) =~= selector_seq(KEY_TRIPPED_SELECTOR));
            lemma_address_word_parts(a);
            assert(p.subrange(16, 20) =~= word(a@).subrange(12, 16));
            assert(p.subrange(20, 36) =~= word(a@).subrange(16, 32));
        },
    }
}

/// Law: decoding the payload of a keychain error the registry knows gives
/// the error back.
pub proof fn lemma_decode_keychain_error(e: AccountKeychainError)
    requires
        !(e is Encoded),
    ensures
        spec_decode_error(e.payload()) == Some(TempoPrecompileError::AccountKeychainError(e)),
{
    crate::primitives::lemma_pow256_values();
    crate::abi::lemma_be_nat_of_be_bytes(UNAUTHORIZED_CALLER_SELECTOR as nat, 4);
    crate::abi::lemma_be_nat_of_be_bytes(SPENDING_LIMIT_EXCEEDED_SELECTOR as nat, 4);
    crate::abi::lemma_be_bytes_len(UNAUTHORIZED_CALLER_SELECTOR as nat, 4);
    crate::abi::lemma_be_bytes_len(SPENDING_LIMIT_EXCEEDED_SELECTOR as nat, 4);
    match e {
        AccountKeychainError::UnauthorizedCaller => {
            assert(e.payload().subrange(0, 4) =~= selector_seq(UNAUTHORIZED_CALLER_SELECTOR));
        },
        AccountKeychainError::SpendingLimitExceeded => {
            assert(e.payload().subrange(0, 4) =~= selector_seq(SPENDING_LIMIT_EXCEEDED_SELECTOR));
        },
        AccountKeychainError::Encoded(_) => {},
    }
}

/// The last 20 bytes of an address word are the address's top 32 bits and
/// low 128 bits.
pub proof fn lemma_address_word_parts(a: Address)
    ensures
        word(a@).len() == 32,
        be_nat(word(a@).subrange(12, 16)) == a.hi as nat,
        be_nat(word(a@).subrange(16, 32)) == a.lo as nat,
{
    crate::primitives::lemma_pow256_values();
    crate::abi::lemma_be_bytes_len(a@, 32);
    crate::abi::lemma_be_bytes_len(0, 12);
    crate::abi::lemma_be_bytes_len(a.hi as nat, 4);
    crate::abi::lemma_be_bytes_len(a.lo as nat, 16);
    let s = be_bytes(0, 12) + be_bytes(a.hi as nat, 4) + be_bytes(a.lo as nat, 16);
    crate::primitives::lemma_pow256_positive(12);
    crate::abi::lemma_be_nat_of_be_bytes(0, 12);
    crate::abi::lemma_be_nat_of_be_bytes(a.hi as nat, 4);
    crate::abi::lemma_be_nat_of_be_bytes(a.lo as nat, 16);
    crate::primitives::lemma_be_nat_concat(be_bytes(0, 12), be_bytes(a.hi as nat, 4));
    crate::primitives::lemma_be_nat_concat(
        be_bytes(0, 12) + be_bytes(a.hi as nat, 4),
        be_bytes(a.lo as nat, 16),
    );
    crate::abi::lemma_be_bytes_of_be_nat(s);
    assert(s.subrange(12, 16) =~= be_bytes(a.hi as nat, 4));
    assert(s.subrange(16, 32) =~= be_bytes(a.lo as nat, 16));
}

} // verus!
