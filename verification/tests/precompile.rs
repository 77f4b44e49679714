use sci_chain::precompile::{
    to_revm34, ExecutionStatus, PrecompileError, PrecompileHalt, PrecompileOutput,
};

#[test]
fn new_constructor_ignores_reservoir() {
    let out = PrecompileOutput::new(100, vec![1, 2, 3], 999);
    assert_eq!(out.gas_used, 100);
    assert_eq!(out.bytes.as_slice(), &[1, 2, 3]);
    assert_eq!(out.reservoir, 0);
    assert!(out.is_success());
}

#[test]
fn revert_constructor_sets_status() {
    let out = PrecompileOutput::revert(50, vec![9], 0);
    assert!(out.is_revert());
    assert!(!out.is_success());
    assert_eq!(out.gas_used, 50);
}

#[test]
fn halt_constructor_carries_reason() {
    let out = PrecompileOutput::halt(PrecompileHalt::OutOfGas, 0);
    assert!(out.status.is_halt());
    assert!(matches!(out.status, ExecutionStatus::Halt(PrecompileHalt::OutOfGas)));
}

#[test]
fn to_revm34_oog_halt_becomes_err() {
    let result = Ok(PrecompileOutput::halt(PrecompileHalt::OutOfGas, 0));
    let revm = to_revm34(result);
    assert!(matches!(revm, Err(PrecompileError::OutOfGas)));
}

#[test]
fn to_revm34_other_halt_becomes_err_other() {
    let result = Ok(PrecompileOutput::halt(PrecompileHalt::Other("boom".to_string()), 0));
    let revm = to_revm34(result);
    match revm {
        Err(PrecompileError::Other(msg)) => assert_eq!(msg, "boom"),
        other => panic!("expected Other halt to become Err::Other, got {other:?}"),
    }
}

#[test]
fn to_revm34_revert_preserves_bytes_and_gas() {
    let result = Ok(PrecompileOutput::revert(42, vec![0xDE, 0xAD], 0));
    let revm = to_revm34(result).unwrap();
    assert!(revm.reverted);
    assert_eq!(revm.gas_used, 42);
    assert_eq!(revm.bytes.as_slice(), &[0xDE, 0xAD]);
}

#[test]
fn to_revm34_success_preserves_bytes_and_gas() {
    let result = Ok(PrecompileOutput::new(7, vec![0xBE, 0xEF], 0));
    let revm = to_revm34(result).unwrap();
    assert!(!revm.reverted);
    assert_eq!(revm.gas_used, 7);
    assert_eq!(revm.bytes.as_slice(), &[0xBE, 0xEF]);
}

#[test]
fn to_revm34_passes_errors_through() {
    let revm = to_revm34(Err(PrecompileError::Fatal("db".to_string())));
    assert!(matches!(revm, Err(PrecompileError::Fatal(m)) if m == "db"));
}

#[test]
fn execution_status_predicates_are_exclusive() {
    let statuses = [
        ExecutionStatus::Success,
        ExecutionStatus::Revert,
        ExecutionStatus::Halt(PrecompileHalt::OutOfGas),
    ];
    for s in statuses.iter() {
        let count = [s.is_success(), s.is_revert(), s.is_halt()].iter().filter(|b| **b).count();
        assert_eq!(count, 1);
    }
}

#[test]
fn only_out_of_gas_error_is_oog() {
    assert!(PrecompileError::OutOfGas.is_oog());
    assert!(!PrecompileError::Other("x".to_string()).is_oog());
    assert!(!PrecompileError::Fatal("x".to_string()).is_oog());
}
