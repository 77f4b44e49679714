//! The keychain's activity checks for session keys: the advisory check the
//! transaction pool makes on a decoded `keys[account][key]` record, and how
//! the execution-time check folds the loader's verdict.
use vstd::prelude::*;
use crate::error::{TempoPrecompileError, spec_is_system_error};

verus! {

/// A session key's authorization record as the keychain stores it.
#[derive(Clone, Copy, Debug, PartialEq, Eq, Structural)]
pub struct AuthorizedKey {
    /// The key's signature scheme.
    pub signature_type: u8,
    /// Block timestamp at which the key expires; zero for a key never
    /// registered.
    pub expiry: u64,
    /// Whether spending limits apply to the key.
    pub enforce_limits: bool,
    /// Whether the key was revoked.
    pub is_revoked: bool,
}

/// The account keychain precompile.
#[derive(Clone, Copy, Debug, PartialEq, Eq, Structural)]
pub struct AccountKeychain;

impl AccountKeychain {
    /// The pool's coarse admission check on the record decoded from a raw
    /// `keys[account][key]` word: active iff the word decoded, a key is
    /// registered (non-zero expiry), not revoked and not expired at `now`
    /// (a key that expires exactly at `now` is expired).
    pub fn authorized_key_word_is_active(decoded: Result<AuthorizedKey, TempoPrecompileError>, now: u64) -> (r: bool)
        ensures
            r == (decoded matches Ok(k) && k.expiry != 0 && !k.is_revoked && k.expiry > now),
    {
        match decoded {
            Ok(key) => key.expiry != 0 && !key.is_revoked && key.expiry > now,
            Err(_) => false,
        }
    }

    /// Whether a key is active, from the outcome of loading it as an active
    /// key: loaded means active; a system error (out of gas, fatal, panic)
    /// propagates; any other error (not found, revoked, expired) means not
    /// active.
    pub fn key_is_active(load: Result<(), TempoPrecompileError>) -> (r: Result<bool, TempoPrecompileError>)
        ensures
            load is Ok ==> r == Ok::<bool, TempoPrecompileError>(true),
            load matches Err(e) ==> (if spec_is_system_error(e) {
                r == Err::<bool, TempoPrecompileError>(e)
            } else {
                r == Ok::<bool, TempoPrecompileError>(false)
            }),
    {
        match load {
            Ok(()) => Ok(true),
            Err(err) => {
                if err.is_system_error() {
                    Err(err)
                } else {
                    Ok(false)
                }
            },
        }
    }
}

} // verus!
