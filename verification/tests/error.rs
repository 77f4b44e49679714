use sci_chain::error::{
    decode_error, result_into_precompile_result, AccountKeychainError, PanicKind, SciAgentStateError,
    TempoPrecompileError,
};
use sci_chain::precompile::{ExecutionStatus, PrecompileError, PrecompileHalt};
use sci_chain::primitives::Address;

#[test]
fn test_decode_error_returns_some_for_valid_keychain_error() {
    let error = AccountKeychainError::unauthorized_caller();
    let encoded = error.abi_encode();

    let result = decode_error(&encoded);
    assert!(result.is_some(), "decode_error should return Some for a valid keychain error");

    let decoded = result.unwrap();
    assert!(matches!(
        decoded.error,
        TempoPrecompileError::AccountKeychainError(AccountKeychainError::UnauthorizedCaller)
    ));
}

#[test]
fn test_decode_error_short_data_returns_none() {
    assert!(decode_error(&[]).is_none());
    assert!(decode_error(&[0x01, 0x02, 0x03]).is_none());
}

#[test]
fn test_decode_error_unknown_selector_returns_none() {
    assert!(decode_error(&[0xff; 4]).is_none());
}

#[test]
fn key_tripped_error_decodes_back_with_its_key() {
    let key = Address::from_bytes([0x42; 20]);
    let encoded = SciAgentStateError::key_tripped(key).abi_encode();
    assert_eq!(encoded.len(), 36);
    assert_eq!(&encoded[..4], &[0x02, 0x24, 0xc2, 0xe5]);
    let decoded = decode_error(&encoded).expect("registered error");
    assert_eq!(decoded.error, TempoPrecompileError::SciAgentStateError(SciAgentStateError::KeyTripped(key)));
    assert_eq!(decoded.revert_bytes, encoded.as_slice());
    // Without its address word the error is not decoded.
    assert!(decode_error(&encoded[..4]).is_none());
}

#[test]
fn unauthorized_agent_state_error_is_selector_only() {
    let encoded = SciAgentStateError::unauthorized_caller().abi_encode();
    assert_eq!(encoded, vec![0x82, 0xb4, 0x29, 0x00]);
    let decoded = decode_error(&encoded).expect("registered error");
    assert_eq!(decoded.error, TempoPrecompileError::SciAgentStateError(SciAgentStateError::Unauthorized));
}

#[test]
fn system_errors_are_oog_fatal_and_panics() {
    assert!(TempoPrecompileError::OutOfGas.is_system_error());
    assert!(TempoPrecompileError::Fatal("db".to_string()).is_system_error());
    assert!(TempoPrecompileError::under_overflow().is_system_error());
    assert!(!TempoPrecompileError::UnknownFunctionSelector(0x12345678).is_system_error());
    assert!(!TempoPrecompileError::AccountKeychainError(AccountKeychainError::spending_limit_exceeded())
        .is_system_error());
    assert!(!TempoPrecompileError::SciAgentStateError(SciAgentStateError::unauthorized_caller())
        .is_system_error());
}

#[test]
fn panic_reverts_with_its_solidity_code() {
    let out = TempoPrecompileError::under_overflow().into_precompile_result(21, 0).unwrap();
    assert_eq!(out.status, ExecutionStatus::Revert);
    assert_eq!(out.gas_used, 21);
    let mut expected = vec![0x4e, 0x48, 0x7b, 0x71];
    expected.extend_from_slice(&[0u8; 31]);
    expected.push(0x11);
    assert_eq!(out.bytes, expected);
    assert_eq!(PanicKind::ArrayOutOfBounds.code(), 0x32);
    assert_eq!(PanicKind::EnumConversionError.code(), 0x21);
    assert_eq!(TempoPrecompileError::array_oob(), TempoPrecompileError::Panic(PanicKind::ArrayOutOfBounds));
    assert_eq!(
        TempoPrecompileError::enum_conversion_error(),
        TempoPrecompileError::Panic(PanicKind::EnumConversionError)
    );
}

#[test]
fn out_of_gas_error_halts() {
    let out = TempoPrecompileError::OutOfGas.into_precompile_result(21, 0).unwrap();
    assert_eq!(out.status, ExecutionStatus::Halt(PrecompileHalt::OutOfGas));
    assert_eq!(out.gas_used, 0);
    assert!(out.bytes.is_empty());
}

#[test]
fn fatal_error_becomes_fatal_precompile_error() {
    let res = TempoPrecompileError::Fatal("db".to_string()).into_precompile_result(21, 0);
    assert!(matches!(res, Err(PrecompileError::Fatal(m)) if m == "db"));
}

#[test]
fn unknown_selector_reverts_with_the_selector() {
    let out = TempoPrecompileError::UnknownFunctionSelector(0x12345678).into_precompile_result(3, 0).unwrap();
    assert_eq!(out.status, ExecutionStatus::Revert);
    let mut expected = vec![0xaa, 0x4b, 0xc6, 0x9a, 0x12, 0x34, 0x56, 0x78];
    expected.extend_from_slice(&[0u8; 28]);
    assert_eq!(out.bytes, expected);
}

#[test]
fn ok_results_are_encoded_successes() {
    let ok: Result<u8, TempoPrecompileError> = Ok(7);
    let out = result_into_precompile_result(ok, 9, 0, |v: u8| vec![v, v]).unwrap();
    assert_eq!(out.status, ExecutionStatus::Success);
    assert_eq!(out.gas_used, 9);
    assert_eq!(out.bytes, vec![7, 7]);
}

#[test]
fn precompile_results_carry_no_reservoir() {
    let out = TempoPrecompileError::under_overflow().into_precompile_result(21, 7).unwrap();
    assert_eq!(out.reservoir, 0);
    assert_eq!(out.state_gas_used, 0);
    let out = TempoPrecompileError::OutOfGas.into_precompile_result(21, 7).unwrap();
    assert_eq!(out.reservoir, 0);
}

#[test]
fn execution_status_defaults_to_success() {
    assert_eq!(ExecutionStatus::default(), ExecutionStatus::Success);
    assert!(ExecutionStatus::default().is_success());
}
