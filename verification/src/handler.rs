//! The decisions of the SCI transaction handler around the EVM: who may
//! sponsor gas and how a sponsor's balances are reconciled, which checks a
//! transaction goes through, how an AA batch threads gas through its calls,
//! and what is metered once the batch has run.
use vstd::prelude::*;
use crate::error::TempoPrecompileError;
use crate::hook::{AaCall, HookVerdict, TxKind};
use crate::primitives::{Address, U256, sat_add};

verus! {

/// Type id of deposit transactions.
pub const DEPOSIT_TRANSACTION_TYPE: u8 = 0x7E;

/// The SCI transaction handler (decision logic; the EVM plumbing wraps it).
#[derive(Clone, Copy, Debug, Default, PartialEq, Eq, Structural)]
pub struct SciHandler;

/// Which checks a transaction goes through before execution.
#[derive(Clone, Copy, Debug, PartialEq, Eq, Structural)]
pub enum TxRoute {
    /// A deposit: no keychain check; seed the keychain origin with its caller.
    Deposit,
    /// An AA transaction with a root: run the keychain hook for
    /// `keys[root][signer]`.
    Agent(Address),
    /// Any other transaction: no keychain check; seed the keychain origin.
    Plain,
}

/// A sponsored-gas balance transfer: `amount` from `from` to `to`.
#[derive(Clone, Copy, Debug, PartialEq, Eq, Structural)]
pub struct Transfer {
    pub from: Address,
    pub to: Address,
    pub amount: U256,
}

/// Gas of a finished batch, in the host's terms: the whole limit marked
/// spent, `remaining` credited back, and the refund recorded.
#[derive(Clone, Copy, Debug, PartialEq, Eq, Structural)]
pub struct BatchGas {
    /// The transaction's gas limit.
    pub limit: u64,
    /// Gas credited back.
    pub remaining: u64,
    /// Refund recorded.
    pub refunded: i64,
}

/// How one call of a batch ended.
#[derive(Clone, Copy, Debug, PartialEq, Eq, Structural)]
pub enum FrameOutcome {
    /// The call returned or stopped normally.
    Success,
    /// The call reverted.
    Revert,
    /// The call halted (out of gas, invalid opcode, ...).
    Halt,
}

/// An AA batch in progress: the gas left for the next call and the refunds
/// accumulated so far.
#[derive(Clone, Copy, Debug, PartialEq, Eq, Structural)]
pub struct AaBatch {
    /// The transaction's gas limit.
    pub tx_gas_limit: u64,
    /// Gas left for the next call.
    pub remaining_gas: u64,
    /// Refunds of the calls so far.
    pub acc_refund: i64,
}

impl SciHandler {
    /// A fresh handler.
    pub fn new() -> (r: SciHandler)
        ensures
            r == SciHandler,
    {
        SciHandler
    }

    /// Sponsored gas may only come from the root account: a transaction naming
    /// a fee payer other than its root is invalid.
    pub fn check_fee_payer(root: Option<Address>, fee_payer: Option<Address>) -> (r: Result<(), String>)
        ensures
            r is Err <==> (fee_payer is Some && fee_payer != root),
            r matches Err(m) ==> m@ == "AA fee_payer must equal root (sponsored gas is authorized via the keychain on the root account)"@,
    {
        if fee_payer.is_some() && !option_address_eq(fee_payer, root) {
            return Err(
                "AA fee_payer must equal root (sponsored gas is authorized via the keychain on the root account)".to_string(),
            );
        }
        Ok(())
    }

    /// The sponsor that actually pays: the fee payer, unless it is the signer
    /// itself.
    pub fn effective_fee_payer(fee_payer: Option<Address>, signer: Address) -> (r: Option<Address>)
        ensures
            r == (if fee_payer matches Some(fp) && fp != signer {
                fee_payer
            } else {
                None
            }),
    {
        match fee_payer {
            Some(fp) => {
                if fp != signer {
                    Some(fp)
                } else {
                    None
                }
            },
            None => None,
        }
    }

    /// What the sponsor pre-funds the signer with: the maximal gas spend plus
    /// the L1 data / operator cost, saturating.
    pub fn prefund_amount(max_gas: U256, additional_cost: U256) -> (r: U256)
        ensures
            r@ == sat_add(max_gas@, additional_cost@),
    {
        max_gas.saturating_add(&additional_cost)
    }

    /// After the inner deduction, the transfer that makes the signer net zero:
    /// an excess goes back to the sponsor, a shortfall is covered by it.
    pub fn reconcile_prefund(signer: Address, fee_payer: Address, signer_before: U256, signer_after: U256) -> (r: Transfer)
        ensures
            reconciles(signer, fee_payer, signer_before@, signer_after@, r),
    {
        if signer_after.ge(&signer_before) {
            Transfer { from: signer, to: fee_payer, amount: signer_after.sub_exact(&signer_before) }
        } else {
            Transfer { from: fee_payer, to: signer, amount: signer_before.sub_exact(&signer_after) }
        }
    }

    /// The gas refund the signer received, which moves on to the sponsor.
    pub fn sponsor_refund(signer_before: U256, signer_after: U256) -> (r: U256)
        ensures
            r@ == if signer_after@ >= signer_before@ {
                signer_after@ - signer_before@
            } else {
                0
            },
    {
        signer_after.saturating_sub(&signer_before)
    }

    /// How a transaction is routed before execution: a deposit as a deposit;
    /// otherwise an AA transaction with a root and a batch through the agent
    /// checks of `keys[root][signer]`; anything else as a plain transaction.
    pub fn route_tx(tx_type: u8, root: Option<Address>, has_aa_parts: bool) -> (r: TxRoute)
        ensures
            tx_type == DEPOSIT_TRANSACTION_TYPE ==> r == TxRoute::Deposit,
            tx_type != DEPOSIT_TRANSACTION_TYPE ==> (r == (if root matches Some(a) && has_aa_parts {
                TxRoute::Agent(root->0)
            } else {
                TxRoute::Plain
            })),
    {
        if tx_type == DEPOSIT_TRANSACTION_TYPE {
            return TxRoute::Deposit;
        }
        match root {
            Some(a) => {
                if has_aa_parts {
                    TxRoute::Agent(a)
                } else {
                    TxRoute::Plain
                }
            },
            None => TxRoute::Plain,
        }
    }

    /// The gas spend reserved in the pre-flight: `gas_limit * max_fee` when the
    /// root sponsors gas, zero when the signer pays.
    pub fn gas_reservation(root: Address, fee_payer: Option<Address>, gas_limit: u64, max_fee: u128) -> (r: U256)
        ensures
            r@ == if fee_payer == Some(root) {
                gas_limit as nat * max_fee as nat
            } else {
                0
            },
    {
        if option_address_eq(fee_payer, Some(root)) {
            U256::mul_u64_u128(gas_limit, max_fee)
        } else {
            U256::zero()
        }
    }

    /// What is metered once an agent batch has run: nothing without a root;
    /// otherwise the gas spend `gas_used * max_fee` when the root sponsored gas
    /// (whatever the body's outcome), and the batch's calls only when the body
    /// succeeded. `None` when there is nothing to apply.
    pub fn post_execution_plan(
        root: Option<Address>,
        fee_payer: Option<Address>,
        body_ok: bool,
        gas_used: u64,
        max_fee: u128,
        calls: Vec<AaCall>,
    ) -> (r: Option<(Address, Vec<AaCall>, U256)>)
        ensures
            root is None ==> r is None,
            root matches Some(ra) ==> {
                let gd: nat = if fee_payer == Some(ra) {
                    gas_used as nat * max_fee as nat
                } else {
                    0
                };
                &&& (body_ok || gd != 0) ==> (r matches Some((a, cs, g)) && a == ra && g@ == gd && (
                body_ok ==> cs@ == calls@) && (!body_ok ==> cs@.len() == 0))
                &&& !(body_ok || gd != 0) ==> r is None
            },
    {
        match root {
            None => None,
            Some(ra) => {
                let gas_deduction = Self::gas_reservation(ra, fee_payer, gas_used, max_fee);
                let metered = if body_ok {
                    calls
                } else {
                    Vec::new()
                };
                if body_ok || !gas_deduction.is_zero() {
                    Some((ra, metered, gas_deduction))
                } else {
                    None
                }
            },
        }
    }

    /// Normalizes a batch's gas to the full transaction limit: the limit marked
    /// spent, `remaining` credited back, and a positive refund recorded.
    pub fn finalize_batch_gas(gas_limit: u64, remaining: u64, refund: i64) -> (r: BatchGas)
        ensures
            r.limit == gas_limit,
            r.remaining == remaining,
            r.refunded == if refund > 0 {
                refund
            } else {
                0
            },
    {
        BatchGas {
            limit: gas_limit,
            remaining,
            refunded: if refund > 0 {
                refund
            } else {
                0
            },
        }
    }
}

/// `a == b` on optional addresses.
pub fn option_address_eq(a: Option<Address>, b: Option<Address>) -> (r: bool)
    ensures
        r == (a == b),
{
    match (a, b) {
        (Some(x), Some(y)) => x == y,
        (None, None) => true,
        _ => false,
    }
}

impl AaBatch {
    /// A batch starting with the transaction's gas limit less its initial gas.
    pub fn start(tx_gas_limit: u64, initial_gas: u64) -> (r: AaBatch)
        ensures
            r.tx_gas_limit == tx_gas_limit,
            r.remaining_gas == if tx_gas_limit >= initial_gas {
                tx_gas_limit - initial_gas
            } else {
                0
            },
            r.acc_refund == 0,
    {
        AaBatch { tx_gas_limit, remaining_gas: tx_gas_limit.saturating_sub(initial_gas), acc_refund: 0 }
    }

    /// Records how a call ended, given the gas it left and the refund it
    /// earned. A successful call passes its leftover gas on and adds its
    /// refund; a failing call ends the batch: a revert credits its leftover
    /// gas, a halt consumes everything, and neither credits any refund.
    pub fn on_frame(&mut self, outcome: FrameOutcome, frame_remaining: u64, frame_refunded: i64) -> (r: Option<BatchGas>)
        ensures
            outcome == FrameOutcome::Success ==> r is None && final(self).remaining_gas
                == frame_remaining && final(self).acc_refund == crate::gas::sat_add_i64(
                old(self).acc_refund as int,
                frame_refunded as int,
            ) && final(self).tx_gas_limit == old(self).tx_gas_limit,
            outcome == FrameOutcome::Revert ==> r == Some(
                BatchGas { limit: old(self).tx_gas_limit, remaining: frame_remaining, refunded: 0 },
            ),
            outcome == FrameOutcome::Halt ==> r == Some(
                BatchGas { limit: old(self).tx_gas_limit, remaining: 0, refunded: 0 },
            ),
    {
        match outcome {
            FrameOutcome::Success => {
                self.remaining_gas = frame_remaining;
                self.acc_refund = crate::gas::saturating_add_i64(self.acc_refund, frame_refunded);
                None
            },
            FrameOutcome::Revert => Some(
                SciHandler::finalize_batch_gas(self.tx_gas_limit, frame_remaining, 0),
            ),
            FrameOutcome::Halt => Some(SciHandler::finalize_batch_gas(self.tx_gas_limit, 0, 0)),
        }
    }

    /// The gas of a batch whose calls all succeeded.
    pub fn finish(&self) -> (r: BatchGas)
        ensures
            r.limit == self.tx_gas_limit,
            r.remaining == self.remaining_gas,
            r.refunded == if self.acc_refund > 0 {
                self.acc_refund
            } else {
                0
            },
    {
        SciHandler::finalize_batch_gas(self.tx_gas_limit, self.remaining_gas, self.acc_refund)
    }
}

/// Why a transaction is invalid: the block builder skips it.
#[derive(Clone, Debug, PartialEq, Eq)]
pub enum InvalidReason {
    /// It names a fee payer other than its root.
    FeePayerNotRoot,
    /// Its session key holds no active key for its root.
    Unauthorized,
    /// The agent checks rejected it (tripped key, scope, spending limit).
    Rejected(TempoPrecompileError),
}

/// What the handler does with a transaction once its checks ran.
#[derive(Clone, Debug, PartialEq, Eq)]
pub enum Admission {
    /// Execute it.
    Proceed,
    /// Skip it as invalid.
    Invalid(InvalidReason),
    /// Abort with a hard error: a system fault in the agent checks.
    Fault(TempoPrecompileError),
}

/// The keychain's transient slots as the handler leaves them for execution.
#[derive(Clone, Copy, Debug, PartialEq, Eq, Structural)]
pub struct KeychainSlots {
    /// The transaction origin keychain admin calls are checked against.
    pub tx_origin: Address,
    /// The session key an agent transaction acts with; zero for any other.
    pub transaction_key: Address,
}

/// How the handler validates a transaction, decided before any balance
/// moves: who pre-funds the signer's gas, which checks it goes through, and
/// what gas spend the agent pre-flight reserves.
#[derive(Clone, Copy, Debug, PartialEq, Eq, Structural)]
pub struct ValidationPlan {
    /// The sponsor that pre-funds and reconciles the signer's gas, if any.
    pub sponsor: Option<Address>,
    /// The checks the transaction goes through.
    pub route: TxRoute,
    /// The gas spend the agent pre-flight meters against the root.
    pub gas_reservation: U256,
}

impl SciHandler {
    /// Plans a transaction's validation. A fee payer other than the root
    /// makes it invalid before any transfer is planned; otherwise the sponsor
    /// is the fee payer unless it is the signer, the route is that of
    /// [`SciHandler::route_tx`], and an agent transaction reserves
    /// `gas_limit * max_fee` when its root sponsors gas.
    pub fn plan_validation(
        tx_type: u8,
        signer: Address,
        root: Option<Address>,
        fee_payer: Option<Address>,
        has_aa_parts: bool,
        gas_limit: u64,
        max_fee: u128,
    ) -> (r: Result<ValidationPlan, InvalidReason>)
        ensures
            r is Err <==> (fee_payer is Some && fee_payer != root),
            r matches Err(e) ==> e == InvalidReason::FeePayerNotRoot,
            r matches Ok(p) ==> {
                &&& p.sponsor == (if fee_payer matches Some(fp) && fp != signer {
                    fee_payer
                } else {
                    None
                })
                &&& tx_type == DEPOSIT_TRANSACTION_TYPE ==> p.route == TxRoute::Deposit
                &&& tx_type != DEPOSIT_TRANSACTION_TYPE ==> p.route == (if root matches Some(a)
                    && has_aa_parts {
                    TxRoute::Agent(root->0)
                } else {
                    TxRoute::Plain
                })
                &&& p.gas_reservation@ == (if p.route matches TxRoute::Agent(ra) && fee_payer == Some(
                    ra,
                ) {
                    gas_limit as nat * max_fee as nat
                } else {
                    0
                })
            },
    {
        if Self::check_fee_payer(root, fee_payer).is_err() {
            return Err(InvalidReason::FeePayerNotRoot);
        }
        let sponsor = Self::effective_fee_payer(fee_payer, signer);
        let route = Self::route_tx(tx_type, root, has_aa_parts);
        let gas_reservation = match route {
            TxRoute::Agent(ra) => Self::gas_reservation(ra, fee_payer, gas_limit, max_fee),
            _ => U256::zero(),
        };
        Ok(ValidationPlan { sponsor, route, gas_reservation })
    }

    /// Finishes validation once the route's checks ran (`hook` is the agent
    /// hook's verdict, which only an agent route has). A deposit or plain
    /// transaction proceeds with the keychain origin seeded to its signer and
    /// no transaction key. An agent transaction proceeds when the hook
    /// passed, with origin and transaction key both its session key; an
    /// unauthorized or rejected one is invalid and a faulted one a hard
    /// error, and either way the hook's writes are rolled back to the seed it
    /// made first (origin the session key, no transaction key).
    pub fn finish_validation(route: TxRoute, signer: Address, hook: Option<HookVerdict>) -> (r: (Admission, KeychainSlots))
        requires
            route is Agent ==> hook is Some,
        ensures
            !(route is Agent) ==> r == (Admission::Proceed, KeychainSlots { tx_origin: signer, transaction_key: Address { hi: 0, lo: 0 } }),
            route is Agent ==> r == (match hook.unwrap() {
                HookVerdict::Pass => (Admission::Proceed, KeychainSlots { tx_origin: signer, transaction_key: signer }),
                HookVerdict::Unauthorized => (
                    Admission::Invalid(InvalidReason::Unauthorized),
                    KeychainSlots { tx_origin: signer, transaction_key: Address { hi: 0, lo: 0 } },
                ),
                HookVerdict::Reject(e) => (
                    Admission::Invalid(InvalidReason::Rejected(e)),
                    KeychainSlots { tx_origin: signer, transaction_key: Address { hi: 0, lo: 0 } },
                ),
                HookVerdict::Fault(e) => (
                    Admission::Fault(e),
                    KeychainSlots { tx_origin: signer, transaction_key: Address { hi: 0, lo: 0 } },
                ),
            }),
    {
        let seeded = KeychainSlots { tx_origin: signer, transaction_key: Address::zero() };
        match route {
            TxRoute::Agent(_) => match hook {
                Some(HookVerdict::Pass) => (Admission::Proceed, KeychainSlots { tx_origin: signer, transaction_key: signer }),
                Some(HookVerdict::Unauthorized) => (Admission::Invalid(InvalidReason::Unauthorized), seeded),
                Some(HookVerdict::Reject(e)) => (Admission::Invalid(InvalidReason::Rejected(e)), seeded),
                Some(HookVerdict::Fault(e)) => (Admission::Fault(e), seeded),
                None => (Admission::Proceed, seeded),
            },
            _ => (Admission::Proceed, seeded),
        }
    }
}

/// What a call of a batch runs as: a call of `target` or a contract
/// creation.
#[derive(Clone, Copy, Debug, PartialEq, Eq, Structural)]
pub enum FrameKind {
    /// A call (scheme `CALL`, not static) whose target is also the address
    /// whose code runs.
    Call(Address),
    /// A `CREATE`.
    Create,
}

/// The inputs of one call's top-level frame.
#[derive(Clone, Debug, PartialEq, Eq)]
pub struct FrameSpec {
    /// Call or creation.
    pub kind: FrameKind,
    /// The account the call executes as.
    pub caller: Address,
    /// Native value transferred.
    pub value: U256,
    /// Calldata (or init code).
    pub input: Vec<u8>,
    /// Gas the frame may use.
    pub gas_limit: u64,
}

impl AaBatch {
    /// The frame of the next call of the batch: it executes as the root when
    /// there is one and as the signer otherwise, with the call's target,
    /// value and input, and all the gas the previous calls left.
    pub fn frame_for(&self, root: Option<Address>, signer: Address, call: &AaCall) -> (r: FrameSpec)
        ensures
            r.caller == (match root {
                Some(a) => a,
                None => signer,
            }),
            r.kind == (match call.to {
                TxKind::Call(t) => FrameKind::Call(t),
                TxKind::Create => FrameKind::Create,
            }),
            r.value == call.value,
            r.input@ == call.input@,
            r.gas_limit == self.remaining_gas,
    {
        let caller = match root {
            Some(a) => a,
            None => signer,
        };
        let kind = match call.to {
            TxKind::Call(t) => FrameKind::Call(t),
            TxKind::Create => FrameKind::Create,
        };
        FrameSpec { kind, caller, value: call.value, input: call.input.clone(), gas_limit: self.remaining_gas }
    }
}

/// Law: the gas metered after a sponsored batch never exceeds what the
/// pre-flight reserved, so the deferred deduction cannot fail a limit the hook
/// already checked.
pub proof fn lemma_gas_deduction_within_reservation(gas_used: u64, gas_limit: u64, max_fee: u128)
    requires
        gas_used <= gas_limit,
    ensures
        gas_used as nat * max_fee as nat <= gas_limit as nat * max_fee as nat,
{
    assert(gas_used as nat * max_fee as nat <= gas_limit as nat * max_fee as nat)
        by (nonlinear_arith)
        requires
            gas_used <= gas_limit,
    ;
}

/// The reconciling transfer after the inner deduction moved the signer's
/// balance from `before` to `after`: the excess from the signer back to the
/// sponsor, or the shortfall from the sponsor to the signer.
pub open spec fn reconciles(signer: Address, fee_payer: Address, before: nat, after: nat, t: Transfer) -> bool {
    if after >= before {
        t.from == signer && t.to == fee_payer && t.amount@ == after - before
    } else {
        t.from == fee_payer && t.to == signer && t.amount@ == before - after
    }
}

/// What a transfer does to an account's balance.
pub open spec fn net_change(account: Address, t: Transfer) -> int {
    (if t.to == account {
        t.amount@ as int
    } else {
        0
    }) - (if t.from == account {
        t.amount@ as int
    } else {
        0
    })
}

/// Law: sponsoring is zero-sum for the signer: whatever the inner deduction
/// did to its balance, the reconciling transfer brings it back to where it
/// was before the pre-funding was deducted.
pub proof fn lemma_reconcile_nets_zero(signer: Address, fee_payer: Address, before: nat, after: nat, t: Transfer)
    requires
        signer != fee_payer,
        reconciles(signer, fee_payer, before, after, t),
    ensures
        after + net_change(signer, t) == before,
{
}

} // verus!
