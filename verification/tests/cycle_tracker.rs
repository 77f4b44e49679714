use sci_chain::cycle_tracker::{keys, names, PREFIX};
use sci_chain::precompile::PrecompileError;
use sci_chain::zkvm::{get_precompile_tracker_name, interpret_precompile_result, InstructionResult, PrecompileKind};

#[test]
fn test_precompile_tracker_name_bn_add() {
    assert_eq!(get_precompile_tracker_name(&PrecompileKind::Bn254Add), Some(names::BN_ADD));
}

#[test]
fn test_precompile_tracker_name_bn_mul() {
    assert_eq!(get_precompile_tracker_name(&PrecompileKind::Bn254Mul), Some(names::BN_MUL));
}

#[test]
fn test_precompile_tracker_name_bn_pair() {
    assert_eq!(get_precompile_tracker_name(&PrecompileKind::Bn254Pairing), Some(names::BN_PAIR));
}

#[test]
fn test_precompile_tracker_name_ecrecover() {
    assert_eq!(get_precompile_tracker_name(&PrecompileKind::EcRec), Some(names::EC_RECOVER));
}

#[test]
fn test_precompile_tracker_name_p256verify() {
    assert_eq!(get_precompile_tracker_name(&PrecompileKind::P256Verify), Some(names::P256_VERIFY));
}

#[test]
fn test_precompile_tracker_name_kzg_eval() {
    assert_eq!(
        get_precompile_tracker_name(&PrecompileKind::KzgPointEvaluation),
        Some(names::KZG_EVAL)
    );
}

#[test]
fn test_unknown_precompile_returns_none() {
    // SHA256 and the identity precompile are not accelerated: both are `Other`.
    assert_eq!(get_precompile_tracker_name(&PrecompileKind::Other), None);
    assert_eq!(get_precompile_tracker_name(&PrecompileKind::Other), None);
}

#[test]
fn test_tracker_keys_match_expected_format() {
    let expected_keys = [
        keys::BN_ADD,
        keys::BN_MUL,
        keys::BN_PAIR,
        keys::EC_RECOVER,
        keys::P256_VERIFY,
        keys::KZG_EVAL,
    ];

    for key in &expected_keys {
        assert!(key.starts_with(PREFIX), "Key '{}' should start with '{}'", key, PREFIX);
        assert!(!key.contains(' '), "Key '{key}' contains spaces");
        assert!(
            !key[PREFIX.len()..].contains('_'),
            "Key '{key}' contains underscores (should use dashes)"
        );
    }
}

#[test]
fn test_names_and_keys_are_consistent() {
    assert_eq!(keys::BN_ADD, format!("{}{}", PREFIX, names::BN_ADD));
    assert_eq!(keys::BN_MUL, format!("{}{}", PREFIX, names::BN_MUL));
    assert_eq!(keys::BN_PAIR, format!("{}{}", PREFIX, names::BN_PAIR));
    assert_eq!(keys::EC_RECOVER, format!("{}{}", PREFIX, names::EC_RECOVER));
    assert_eq!(keys::P256_VERIFY, format!("{}{}", PREFIX, names::P256_VERIFY));
    assert_eq!(keys::KZG_EVAL, format!("{}{}", PREFIX, names::KZG_EVAL));
}

#[test]
fn out_of_gas_precompile_error_keeps_all_gas() {
    let out = interpret_precompile_result(0, Err(PrecompileError::OutOfGas), false).unwrap();
    assert_eq!(out.result, InstructionResult::PrecompileOOG);
    assert_eq!(out.gas_remaining, 0);
    assert!(out.output.is_empty());
}
