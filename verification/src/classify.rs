//! Classifies an inner call of an agent batch into the token and amount it
//! moves, for spending-limit metering.
use vstd::prelude::*;
use crate::abi::{
    APPROVE_SELECTOR, TRANSFER_FROM_SELECTOR, TRANSFER_SELECTOR, TRANSFER_WITH_MEMO_SELECTOR,
    read_selector,
};
use crate::primitives::{Address, U256, be_nat};

verus! {

/// The address in the ABI word starting at `off` (its low 20 bytes).
pub open spec fn word_address(data: Seq<u8>, off: int) -> nat {
    be_nat(data.subrange(off + 12, off + 32))
}

/// The unsigned integer in the ABI word starting at `off`.
pub open spec fn word_uint(data: Seq<u8>, off: int) -> nat {
    be_nat(data.subrange(off, off + 32))
}

/// The token and amount a call moves out of `root`'s balance, as far as the
/// spending-limit policy meters it:
///
/// - `transfer(to, amount)` and `approve(spender, amount)`: the full amount,
///   `approve` as a maximal commitment;
/// - `transferFrom(from, to, amount)` only when `from` is `root`;
/// - `transferWithMemo(to, amount, memo)`: the amount;
///
/// always against the call's target as the token. Calldata shorter than the
/// selector, an unknown selector, or arguments cut short give `None`.
/// Arguments are read without validating the padding of address words.
pub open spec fn spec_classify(root: nat, target: Address, data: Seq<u8>) -> Option<(Address, nat)> {
    if data.len() < 4 {
        None
    } else {
        let sel = be_nat(data.subrange(0, 4));
        if sel == TRANSFER_SELECTOR as nat || sel == APPROVE_SELECTOR as nat {
            if data.len() >= 68 {
                Some((target, word_uint(data, 36)))
            } else {
                None
            }
        } else if sel == TRANSFER_FROM_SELECTOR as nat {
            if data.len() >= 100 && word_address(data, 4) == root {
                Some((target, word_uint(data, 68)))
            } else {
                None
            }
        } else if sel == TRANSFER_WITH_MEMO_SELECTOR as nat {
            if data.len() >= 100 {
                Some((target, word_uint(data, 36)))
            } else {
                None
            }
        } else {
            None
        }
    }
}

/// Classifies an inner call's calldata for spending-limit purposes; see
/// [`spec_classify`] for what is metered.
pub fn classify_token_call(root: Address, target: Address, data: &[u8]) -> (r: Option<(Address, U256)>)
    ensures
        match (r, spec_classify(root@, target, data@)) {
            (Some((t, a)), Some((st, sa))) => t == st && a@ == sa,
            (None, None) => true,
            _ => false,
        },
{
    if data.len() < 4 {
        return None;
    }
    let sel = read_selector(data);
    if sel == TRANSFER_SELECTOR || sel == APPROVE_SELECTOR {
        if data.len() >= 68 {
            let amount = U256::from_be_slice(data, 36);
            Some((target, amount))
        } else {
            None
        }
    } else if sel == TRANSFER_FROM_SELECTOR {
        if data.len() >= 100 {
            let from = Address::from_be_slice(data, 16);
            if from == root {
                let amount = U256::from_be_slice(data, 68);
                Some((target, amount))
            } else {
                proof {
                    if from@ == root@ {
                        from.lemma_view_injective(root);
                    }
                }
                None
            }
        } else {
            None
        }
    } else if sel == TRANSFER_WITH_MEMO_SELECTOR {
        if data.len() >= 100 {
            let amount = U256::from_be_slice(data, 36);
            Some((target, amount))
        } else {
            None
        }
    } else {
        None
    }
}

} // verus!
