//! Tracker names of the accelerated precompiles (without the prefix).
use vstd::prelude::*;

verus! {

/// BN254 addition.
pub const BN_ADD: &'static str = "bn-add";

/// BN254 scalar multiplication.
pub const BN_MUL: &'static str = "bn-mul";

/// BN254 pairing check.
pub const BN_PAIR: &'static str = "bn-pair";

/// ECDSA recovery.
pub const EC_RECOVER: &'static str = "ec-recover";

/// P-256 signature verification.
pub const P256_VERIFY: &'static str = "p256-verify";

/// KZG point evaluation.
pub const KZG_EVAL: &'static str = "kzg-eval";

} // verus!
