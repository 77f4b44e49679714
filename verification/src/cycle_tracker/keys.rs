//! Full cycle tracker keys (with the prefix), as execution reports carry them.
use vstd::prelude::*;

verus! {

/// BN254 addition (prefixed).
pub const BN_ADD: &'static str = "precompile-bn-add";

/// BN254 scalar multiplication (prefixed).
pub const BN_MUL: &'static str = "precompile-bn-mul";

/// BN254 pairing check (prefixed).
pub const BN_PAIR: &'static str = "precompile-bn-pair";

/// ECDSA recovery (prefixed).
pub const EC_RECOVER: &'static str = "precompile-ec-recover";

/// P-256 signature verification (prefixed).
pub const P256_VERIFY: &'static str = "precompile-p256-verify";

/// KZG point evaluation (prefixed).
pub const KZG_EVAL: &'static str = "precompile-kzg-eval";

} // verus!
