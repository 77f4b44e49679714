//! Names of the accelerated precompiles in cycle-tracker reports: each key is
//! the prefix followed by the precompile's name.
use vstd::prelude::*;

pub mod keys;
pub mod names;

verus! {

/// Prefix for all precompile cycle tracker keys.
pub const PREFIX: &'static str = "precompile-";

/// Law: every tracker key is the prefix followed by its name.
pub proof fn lemma_keys_are_prefixed_names()
    ensures
        keys::BN_ADD@ == PREFIX@ + names::BN_ADD@,
        keys::BN_MUL@ == PREFIX@ + names::BN_MUL@,
        keys::BN_PAIR@ == PREFIX@ + names::BN_PAIR@,
        keys::EC_RECOVER@ == PREFIX@ + names::EC_RECOVER@,
        keys::P256_VERIFY@ == PREFIX@ + names::P256_VERIFY@,
        keys::KZG_EVAL@ == PREFIX@ + names::KZG_EVAL@,
{
    reveal_strlit("precompile-");
    reveal_strlit("bn-add");
    reveal_strlit("bn-mul");
    reveal_strlit("bn-pair");
    reveal_strlit("ec-recover");
    reveal_strlit("p256-verify");
    reveal_strlit("kzg-eval");
    reveal_strlit("precompile-bn-add");
    reveal_strlit("precompile-bn-mul");
    reveal_strlit("precompile-bn-pair");
    reveal_strlit("precompile-ec-recover");
    reveal_strlit("precompile-p256-verify");
    reveal_strlit("precompile-kzg-eval");
    assert(keys::BN_ADD@ =~= PREFIX@ + names::BN_ADD@);
    assert(keys::BN_MUL@ =~= PREFIX@ + names::BN_MUL@);
    assert(keys::BN_PAIR@ =~= PREFIX@ + names::BN_PAIR@);
    assert(keys::EC_RECOVER@ =~= PREFIX@ + names::EC_RECOVER@);
    assert(keys::P256_VERIFY@ =~= PREFIX@ + names::P256_VERIFY@);
    assert(keys::KZG_EVAL@ =~= PREFIX@ + names::KZG_EVAL@);
}

} // verus!
