//! The pre-execution hook's decisions for agent (AA) transactions: which
//! spends a batch meters against which token's quota, the read-only
//! spending-limit pre-flight, how a hook failure is reported, and the
//! deductions applied once the batch has run.
use vstd::prelude::*;
use crate::classify::{classify_token_call, spec_classify};
use crate::error::{AccountKeychainError, TempoPrecompileError, spec_is_system_error};
use crate::primitives::{Address, U256, sat_add, u256_max};

verus! {

/// Target of a call: an account, or contract creation.
#[derive(Clone, Copy, Debug, PartialEq, Eq, Structural)]
pub enum TxKind {
    /// A call to the given address.
    Call(Address),
    /// Contract creation.
    Create,
}

/// One decoded call of an AA transaction batch.
#[derive(Clone, Debug, PartialEq, Eq)]
pub struct AaCall {
    /// Call target (or CREATE).
    pub to: TxKind,
    /// Native value forwarded to the call (from `root`).
    pub value: U256,
    /// Calldata forwarded to the call.
    pub input: Vec<u8>,
}

/// Outcome reported back to the handler wrapper.
#[derive(Debug)]
pub enum HookOutcome<E> {
    /// Hook completed; the transaction may proceed.
    Pass,
    /// Hook rejected the transaction with the contained error.
    Reject(E),
}

/// The sentinel token (`address(0)`) that native value and gas meter against.
pub open spec fn sentinel() -> Address {
    Address { hi: 0, lo: 0 }
}

/// The spends one call meters, in order: its native value against the
/// sentinel (when non-zero), then the token amount it moves (when classified).
pub open spec fn call_spends(root: nat, c: AaCall) -> Seq<(Address, nat)> {
    let value_spend: Seq<(Address, nat)> = if c.value@ != 0 {
        seq![(sentinel(), c.value@)]
    } else {
        seq![]
    };
    let token_spend: Seq<(Address, nat)> = match c.to {
        TxKind::Call(target) => match spec_classify(root, target, c.input@) {
            Some((token, amount)) => seq![(token, amount)],
            None => seq![],
        },
        TxKind::Create => seq![],
    };
    value_spend + token_spend
}

/// The spends a batch meters, call by call.
pub open spec fn batch_spends(root: nat, calls: Seq<AaCall>) -> Seq<(Address, nat)>
    decreases calls.len(),
{
    if calls.len() == 0 {
        seq![]
    } else {
        batch_spends(root, calls.drop_last()) + call_spends(root, calls.last())
    }
}

/// The spends the pre-flight meters: the batch's, then the gas reservation
/// against the sentinel (when non-zero).
pub open spec fn preflight_spends(root: nat, calls: Seq<AaCall>, gas_reservation: nat) -> Seq<
    (Address, nat),
> {
    batch_spends(root, calls) + if gas_reservation != 0 {
        seq![(sentinel(), gas_reservation)]
    } else {
        seq![]
    }
}

/// The saturating total of the spends against `token`.
pub open spec fn total(spends: Seq<(Address, nat)>, token: Address) -> nat
    decreases spends.len(),
{
    if spends.len() == 0 {
        0
    } else {
        let prev = total(spends.drop_last(), token);
        if spends.last().0 == token {
            sat_add(prev, spends.last().1)
        } else {
            prev
        }
    }
}

/// `true` iff some spend is against `token`.
pub open spec fn occurs(spends: Seq<(Address, nat)>, token: Address) -> bool
    decreases spends.len(),
{
    if spends.len() == 0 {
        false
    } else {
        spends.last().0 == token || occurs(spends.drop_last(), token)
    }
}

/// `v` lists, once each, exactly the tokens that `spends` meters, each with
/// its total.
pub open spec fn represents(v: Seq<(Address, U256)>, spends: Seq<(Address, nat)>) -> bool {
    &&& forall|i: int, j: int| 0 <= i < j < v.len() ==> v[i].0 != v[j].0
    &&& forall|i: int| 0 <= i < v.len() ==> v[i].1@ == total(spends, v[i].0) && occurs(spends, v[i].0)
    &&& forall|t: Address| occurs(spends, t) ==> exists|i: int| 0 <= i < v.len() && v[i].0 == t
}

pub proof fn lemma_total_bounded(spends: Seq<(Address, nat)>, token: Address)
    ensures
        total(spends, token) <= u256_max(),
    decreases spends.len(),
{
    if spends.len() > 0 {
        lemma_total_bounded(spends.drop_last(), token);
    }
}

pub proof fn lemma_total_absent(spends: Seq<(Address, nat)>, token: Address)
    requires
        !occurs(spends, token),
    ensures
        total(spends, token) == 0,
    decreases spends.len(),
{
    if spends.len() > 0 {
        lemma_total_absent(spends.drop_last(), token);
    }
}

pub proof fn lemma_push_spend(spends: Seq<(Address, nat)>, s: (Address, nat), t: Address)
    ensures
        spends.push(s).drop_last() == spends,
        total(spends.push(s), t) == if s.0 == t {
            sat_add(total(spends, t), s.1)
        } else {
            total(spends, t)
        },
        occurs(spends.push(s), t) == (s.0 == t || occurs(spends, t)),
{
    assert(spends.push(s).drop_last() =~= spends);
}

/// Adds one spend to a token-total list, keeping it a faithful summary.
pub fn add_spend(totals: &mut Vec<(Address, U256)>, token: Address, amount: U256, Ghost(spends): Ghost<Seq<(Address, nat)>>)
    requires
        represents(old(totals)@, spends),
    ensures
        represents(final(totals)@, spends.push((token, amount@))),
{
    let ghost s = (token, amount@);
    proof {
        assert forall|t: Address| #![auto] true implies total(spends.push(s), t) == (if token == t {
            sat_add(total(spends, t), amount@)
        } else {
            total(spends, t)
        }) && occurs(spends.push(s), t) == (token == t || occurs(spends, t)) by {
            lemma_push_spend(spends, s, t);
        }
    }
    let n = totals.len();
    let mut i: usize = 0;
    while i < n
        invariant
            n == totals@.len(),
            i <= n,
            totals@ == old(totals)@,
            represents(totals@, spends),
            s == (token, amount@),
            forall|k: int| 0 <= k < i ==> totals@[k].0 != token,
        decreases n - i,
    {
        if totals[i].0 == token {
            let updated = totals[i].1.saturating_add(&amount);
            let ghost before = totals@;
            totals.set(i, (token, updated));
            proof {
                assert forall|k: int| 0 <= k < totals@.len() implies totals@[k].1@ == total(
                    spends.push(s),
                    totals@[k].0,
                ) && occurs(spends.push(s), totals@[k].0) by {
                    lemma_push_spend(spends, s, totals@[k].0);
                    if k != i {
                        assert(totals@[k] == before[k]);
                        if k < i {
                            assert(before[k].0 != before[i as int].0);
                        } else {
                            assert(before[i as int].0 != before[k].0);
                        }
                    }
                }
                assert forall|t: Address| occurs(spends.push(s), t) implies exists|k: int|
                    0 <= k < totals@.len() && totals@[k].0 == t by {
                    lemma_push_spend(spends, s, t);
                    if t == token {
                        assert(totals@[i as int].0 == t);
                    } else {
                        assert(occurs(spends, t));
                        let k = choose|k: int| 0 <= k < before.len() && before[k].0 == t;
                        assert(totals@[k].0 == t);
                    }
                }
            }
            return;
        }
        i = i + 1;
    }
    proof {
        assert(!occurs(spends, token));
        lemma_total_absent(spends, token);
        amount.lemma_bounded();
    }
    let ghost before = totals@;
    totals.push((token, amount));
    proof {
        assert forall|k: int| 0 <= k < totals@.len() implies totals@[k].1@ == total(
            spends.push(s),
            totals@[k].0,
        ) && occurs(spends.push(s), totals@[k].0) by {
            lemma_push_spend(spends, s, totals@[k].0);
            if k < before.len() {
                assert(totals@[k] == before[k]);
            }
        }
        assert forall|t: Address| occurs(spends.push(s), t) implies exists|k: int|
            0 <= k < totals@.len() && totals@[k].0 == t by {
            lemma_push_spend(spends, s, t);
            if t == token {
                assert(totals@[before.len() as int].0 == t);
            } else {
                assert(occurs(spends, t));
                let k = choose|k: int| 0 <= k < before.len() && before[k].0 == t;
                assert(totals@[k].0 == t);
            }
        }
    }
}

/// Adds the spends of one call.
fn add_call_spends(
    totals: &mut Vec<(Address, U256)>,
    root: Address,
    call: &AaCall,
    Ghost(spends): Ghost<Seq<(Address, nat)>>,
)
    requires
        represents(old(totals)@, spends),
    ensures
        represents(final(totals)@, spends + call_spends(root@, *call)),
{
    let ghost mut acc = spends;
    if !call.value.is_zero() {
        add_spend(totals, Address::zero(), call.value, Ghost(acc));
        proof {
            acc = acc.push((sentinel(), call.value@));
        }
    }
    let ghost after_value = acc;
    if let TxKind::Call(target) = call.to {
        if let Some((token, amount)) = classify_token_call(root, target, call.input.as_slice()) {
            add_spend(totals, token, amount, Ghost(acc));
            proof {
                acc = acc.push((token, amount@));
            }
        }
    }
    proof {
        assert(acc =~= spends + call_spends(root@, *call));
    }
}

/// The per-token totals the pre-flight checks: every call's native value and
/// the gas reservation against the sentinel, every classified token call's
/// amount against its token, each total summed with saturation. Each token
/// appears once; tokens no spend touches do not appear.
pub fn preflight_totals(root: Address, calls: &Vec<AaCall>, gas_reservation: U256) -> (r: Vec<(Address, U256)>)
    ensures
        represents(r@, preflight_spends(root@, calls@, gas_reservation@)),
{
    let mut totals: Vec<(Address, U256)> = Vec::new();
    let n = calls.len();
    let mut i: usize = 0;
    while i < n
        invariant
            n == calls@.len(),
            i <= n,
            represents(totals@, batch_spends(root@, calls@.subrange(0, i as int))),
        decreases n - i,
    {
        proof {
            let pre = calls@.subrange(0, i + 1);
            assert(pre.drop_last() =~= calls@.subrange(0, i as int));
        }
        add_call_spends(&mut totals, root, &calls[i], Ghost(batch_spends(root@, calls@.subrange(0, i as int))));
        i = i + 1;
    }
    proof {
        assert(calls@.subrange(0, n as int) =~= calls@);
    }
    let ghost batch = batch_spends(root@, calls@);
    if !gas_reservation.is_zero() {
        add_spend(&mut totals, Address::zero(), gas_reservation, Ghost(batch));
        proof {
            assert(batch.push((sentinel(), gas_reservation@)) =~= preflight_spends(
                root@,
                calls@,
                gas_reservation@,
            ));
        }
    } else {
        proof {
            assert(batch =~= preflight_spends(root@, calls@, gas_reservation@));
        }
    }
    totals
}

/// The spending-limit pre-flight: for a key without enforced limits it
/// passes; otherwise, with `remaining[i]` the quota left for `totals[i].0`,
/// it passes iff no total exceeds its remaining quota, and fails with
/// `SpendingLimitExceeded` when one does.
pub fn check_spending_limits(enforce_limits: bool, totals: &Vec<(Address, U256)>, remaining: &Vec<U256>) -> (r: Result<(), TempoPrecompileError>)
    requires
        enforce_limits ==> totals@.len() == remaining@.len(),
    ensures
        r is Ok <==> (!enforce_limits || forall|i: int| 0 <= i < totals@.len() ==> totals@[i].1@ <= remaining@[i]@),
        r matches Err(e) ==> e == TempoPrecompileError::AccountKeychainError(
            AccountKeychainError::SpendingLimitExceeded,
        ),
{
    if !enforce_limits {
        return Ok(());
    }
    let n = totals.len();
    let mut i: usize = 0;
    while i < n
        invariant
            enforce_limits,
            n == totals@.len(),
            n == remaining@.len(),
            i <= n,
            forall|k: int| 0 <= k < i ==> totals@[k].1@ <= remaining@[k]@,
        decreases n - i,
    {
        if totals[i].1.gt(&remaining[i]) {
            return Err(
                TempoPrecompileError::AccountKeychainError(
                    AccountKeychainError::spending_limit_exceeded(),
                ),
            );
        }
        i = i + 1;
    }
    Ok(())
}

/// How the handler reports the outcome of the hook's checks.
#[derive(Clone, Debug, PartialEq, Eq)]
pub enum HookVerdict {
    /// All checks passed: commit the hook's transient writes and execute.
    Pass,
    /// The session key holds no active key for the root: the transaction is
    /// rejected before any other check runs.
    Unauthorized,
    /// A business rejection (tripped key, scope violation, quota exhausted):
    /// roll back and skip the transaction.
    Reject(TempoPrecompileError),
    /// A system fault (database failure, out of gas, panic): roll back and
    /// surface a hard error; never silently skipped.
    Fault(TempoPrecompileError),
}

/// Classifies the result of the hook's checks.
pub fn hook_verdict(result: Result<(), TempoPrecompileError>) -> (r: HookVerdict)
    ensures
        result is Ok <==> r is Pass,
        result matches Err(e) ==> (spec_is_system_error(e) ==> r == HookVerdict::Fault(e)),
        result matches Err(e) ==> (!spec_is_system_error(e) ==> r == HookVerdict::Reject(e)),
{
    match result {
        Ok(()) => HookVerdict::Pass,
        Err(e) => {
            if e.is_system_error() {
                HookVerdict::Fault(e)
            } else {
                HookVerdict::Reject(e)
            }
        },
    }
}

/// The verdict on a failed check: a system error is a fault, any other
/// error a rejection.
pub open spec fn spec_failure_verdict(e: TempoPrecompileError) -> HookVerdict {
    if spec_is_system_error(e) {
        HookVerdict::Fault(e)
    } else {
        HookVerdict::Reject(e)
    }
}

/// The hook's verdict from its checks, taken in order: authorization (an
/// inactive key is unauthorized, a failed probe a fault), then the circuit
/// breaker, then the call scope, then the spending limits. The first check
/// that fails decides; a system error at any step is a fault, any other
/// failure a rejection; a later check is never consulted once an earlier
/// one failed.
pub open spec fn spec_hook_decision(
    active: Result<bool, TempoPrecompileError>,
    session_key: Address,
    tripped: Result<bool, TempoPrecompileError>,
    scope: Result<(), TempoPrecompileError>,
    limits: Result<(), TempoPrecompileError>,
) -> HookVerdict {
    match active {
        Err(e) => HookVerdict::Fault(e),
        Ok(false) => HookVerdict::Unauthorized,
        Ok(true) => match tripped {
            Err(e) => spec_failure_verdict(e),
            Ok(true) => HookVerdict::Reject(
                TempoPrecompileError::SciAgentStateError(
                    crate::error::SciAgentStateError::KeyTripped(session_key),
                ),
            ),
            Ok(false) => match scope {
                Err(e) => spec_failure_verdict(e),
                Ok(()) => match limits {
                    Err(e) => spec_failure_verdict(e),
                    Ok(()) => HookVerdict::Pass,
                },
            },
        },
    }
}

/// The keychain hook's decision for an agent transaction, from the outcome
/// of each of its checks: `active` is the probe of `keys[root][session_key]`
/// (`Err` only for a system error), `tripped` the circuit-breaker read,
/// `scope` the first failing per-call scope validation (or `Ok`), and
/// `limits` the spending-limit pre-flight (see [`check_spending_limits`]).
pub fn keychain_hook_decision(
    active: Result<bool, TempoPrecompileError>,
    session_key: Address,
    tripped: Result<bool, TempoPrecompileError>,
    scope: Result<(), TempoPrecompileError>,
    limits: Result<(), TempoPrecompileError>,
) -> (r: HookVerdict)
    ensures
        r == spec_hook_decision(active, session_key, tripped, scope, limits),
{
    let is_active = match active {
        Err(e) => {
            return HookVerdict::Fault(e);
        },
        Ok(b) => b,
    };
    if !is_active {
        return HookVerdict::Unauthorized;
    }
    let checks = match tripped {
        Err(e) => Err(e),
        Ok(t) => match check_not_tripped(session_key, t) {
            Err(e) => Err(e),
            Ok(()) => match scope {
                Err(e) => Err(e),
                Ok(()) => limits,
            },
        },
    };
    hook_verdict(checks)
}

/// Law: the hook's checks run in the order authorization, circuit breaker,
/// scope, spending limits. An inactive key is unauthorized whatever the
/// later checks would say; a tripped key is rejected whatever its scope and
/// limits; a scope failure decides before the limits; the transaction passes
/// only when every check passes; and a system error is always a fault.
pub proof fn lemma_hook_checks_in_order(
    active: Result<bool, TempoPrecompileError>,
    session_key: Address,
    tripped: Result<bool, TempoPrecompileError>,
    scope: Result<(), TempoPrecompileError>,
    limits: Result<(), TempoPrecompileError>,
)
    ensures
        active == Ok::<bool, TempoPrecompileError>(false) ==> spec_hook_decision(
            active,
            session_key,
            tripped,
            scope,
            limits,
        ) == HookVerdict::Unauthorized,
        active == Ok::<bool, TempoPrecompileError>(true) && tripped == Ok::<bool, TempoPrecompileError>(true)
            ==> spec_hook_decision(active, session_key, tripped, scope, limits) == HookVerdict::Reject(
            TempoPrecompileError::SciAgentStateError(
                crate::error::SciAgentStateError::KeyTripped(session_key),
            ),
        ),
        active == Ok::<bool, TempoPrecompileError>(true) && tripped == Ok::<bool, TempoPrecompileError>(false)
            && scope is Err ==> spec_hook_decision(active, session_key, tripped, scope, limits)
            == spec_failure_verdict(scope->Err_0),
        spec_hook_decision(active, session_key, tripped, scope, limits) is Pass <==> (active
            == Ok::<bool, TempoPrecompileError>(true) && tripped == Ok::<bool, TempoPrecompileError>(false)
            && scope is Ok && limits is Ok),
        spec_hook_decision(active, session_key, tripped, scope, limits) matches HookVerdict::Reject(e)
            ==> !spec_is_system_error(e),
        spec_hook_decision(active, session_key, tripped, scope, limits) matches HookVerdict::Fault(e)
            ==> (active is Err || spec_is_system_error(e)),
{
    assert(!spec_is_system_error(
        TempoPrecompileError::SciAgentStateError(crate::error::SciAgentStateError::KeyTripped(session_key)),
    ));
}

/// The circuit-breaker check: a tripped session key fails with `KeyTripped`.
pub fn check_not_tripped(session_key: Address, tripped: bool) -> (r: Result<(), TempoPrecompileError>)
    ensures
        r is Ok <==> !tripped,
        r matches Err(e) ==> e == TempoPrecompileError::SciAgentStateError(
            crate::error::SciAgentStateError::KeyTripped(session_key),
        ),
{
    if tripped {
        Err(
            TempoPrecompileError::SciAgentStateError(
                crate::error::SciAgentStateError::key_tripped(session_key),
            ),
        )
    } else {
        Ok(())
    }
}

/// The sentinel total deducted after a batch ran: the gas deduction plus
/// every call's native value, summed with saturation.
pub open spec fn sentinel_total(calls: Seq<AaCall>, gas_deduction: nat) -> nat
    decreases calls.len(),
{
    if calls.len() == 0 {
        gas_deduction
    } else {
        sat_add(sentinel_total(calls.drop_last(), gas_deduction), calls.last().value@)
    }
}

/// The token deductions of a batch: one per classified token call, in call
/// order.
pub open spec fn token_deductions(root: nat, calls: Seq<AaCall>) -> Seq<(Address, nat)>
    decreases calls.len(),
{
    if calls.len() == 0 {
        seq![]
    } else {
        let rest = token_deductions(root, calls.drop_last());
        match calls.last().to {
            TxKind::Call(target) => match spec_classify(root, target, calls.last().input@) {
                Some((token, amount)) => rest.push((token, amount)),
                None => rest,
            },
            TxKind::Create => rest,
        }
    }
}

/// The deductions applied after a batch ran, in the order they are applied:
/// the sentinel total (when non-zero), then each classified token call.
pub open spec fn deduction_plan(root: nat, calls: Seq<AaCall>, gas_deduction: nat) -> Seq<(Address, nat)> {
    let st = sentinel_total(calls, gas_deduction);
    (if st != 0 {
        seq![(sentinel(), st)]
    } else {
        seq![]
    }) + token_deductions(root, calls)
}

/// The spending-limit deductions `apply_aa_post_execution_deductions` makes,
/// in order; see [`deduction_plan`].
pub fn post_execution_deductions(root: Address, calls: &Vec<AaCall>, gas_deduction: U256) -> (r: Vec<(Address, U256)>)
    requires
        gas_deduction@ <= u256_max(),
    ensures
        r@.len() == deduction_plan(root@, calls@, gas_deduction@).len(),
        forall|i: int| 0 <= i < r@.len() ==> r@[i].0 == deduction_plan(root@, calls@, gas_deduction@)[i].0
            && r@[i].1@ == deduction_plan(root@, calls@, gas_deduction@)[i].1,
{
    let n = calls.len();
    let mut sentinel_sum = gas_deduction;
    let mut i: usize = 0;
    while i < n
        invariant
            n == calls@.len(),
            i <= n,
            sentinel_sum@ == sentinel_total(calls@.subrange(0, i as int), gas_deduction@),
        decreases n - i,
    {
        proof {
            assert(calls@.subrange(0, i + 1).drop_last() =~= calls@.subrange(0, i as int));
        }
        sentinel_sum = sentinel_sum.saturating_add(&calls[i].value);
        i = i + 1;
    }
    proof {
        assert(calls@.subrange(0, n as int) =~= calls@);
    }
    let mut plan: Vec<(Address, U256)> = Vec::new();
    if !sentinel_sum.is_zero() {
        plan.push((Address::zero(), sentinel_sum));
    }
    let ghost head = plan@;
    let mut j: usize = 0;
    while j < n
        invariant
            n == calls@.len(),
            j <= n,
            head.len() <= 1,
            plan@.len() == head.len() + token_deductions(root@, calls@.subrange(0, j as int)).len(),
            forall|k: int| 0 <= k < head.len() ==> plan@[k] == head[k],
            forall|k: int|
                0 <= k < token_deductions(root@, calls@.subrange(0, j as int)).len() ==> plan@[head.len() + k].0
                    == token_deductions(root@, calls@.subrange(0, j as int))[k].0 && plan@[head.len()
                    + k].1@ == token_deductions(root@, calls@.subrange(0, j as int))[k].1,
        decreases n - j,
    {
        proof {
            assert(calls@.subrange(0, j + 1).drop_last() =~= calls@.subrange(0, j as int));
            assert(calls@.subrange(0, j + 1).last() == calls@[j as int]);
        }
        if let TxKind::Call(target) = calls[j].to {
            if let Some((token, amount)) = classify_token_call(root, target, calls[j].input.as_slice()) {
                plan.push((token, amount));
            }
        }
        j = j + 1;
    }
    proof {
        assert(calls@.subrange(0, n as int) =~= calls@);
        let plan_spec = deduction_plan(root@, calls@, gas_deduction@);
        let st = sentinel_total(calls@, gas_deduction@);
        let hs: Seq<(Address, nat)> = if st != 0 {
            seq![(sentinel(), st)]
        } else {
            seq![]
        };
        let td = token_deductions(root@, calls@);
        assert(plan_spec =~= hs + td);
        assert(hs.len() == head.len());
        assert forall|i: int| 0 <= i < plan@.len() implies plan@[i].0 == plan_spec[i].0
            && plan@[i].1@ == plan_spec[i].1 by {
            if i < head.len() {
                assert(plan@[i] == head[i]);
            } else {
                assert(plan@[head.len() + (i - head.len())].0 == td[i - head.len()].0);
            }
        }
    }
    plan
}

/// The plain (unsaturated) sum of the spends against `token`.
pub open spec fn plain_total(spends: Seq<(Address, nat)>, token: Address) -> nat
    decreases spends.len(),
{
    if spends.len() == 0 {
        0
    } else {
        plain_total(spends.drop_last(), token) + if spends.last().0 == token {
            spends.last().1
        } else {
            0
        }
    }
}

/// The plain sum of the calls' native values.
pub open spec fn value_sum(calls: Seq<AaCall>) -> nat
    decreases calls.len(),
{
    if calls.len() == 0 {
        0
    } else {
        value_sum(calls.drop_last()) + calls.last().value@
    }
}

proof fn lemma_plain_total_concat(a: Seq<(Address, nat)>, b: Seq<(Address, nat)>, token: Address)
    ensures
        plain_total(a + b, token) == plain_total(a, token) + plain_total(b, token),
    decreases b.len(),
{
    if b.len() == 0 {
        assert(a + b =~= a);
    } else {
        assert((a + b).drop_last() =~= a + b.drop_last());
        assert((a + b).last() == b.last());
        lemma_plain_total_concat(a, b.drop_last(), token);
    }
}

proof fn lemma_plain_total_small(s: Seq<(Address, nat)>, token: Address)
    requires
        s.len() <= 1,
    ensures
        plain_total(s, token) == if s.len() == 1 && s[0].0 == token {
            s[0].1
        } else {
            0
        },
{
    if s.len() == 1 {
        assert(s.drop_last() =~= Seq::<(Address, nat)>::empty());
        assert(plain_total(s.drop_last(), token) == 0);
        assert(s.last() == s[0]);
    }
}

/// A saturating total is the plain total capped at the largest word.
proof fn lemma_total_is_capped_plain(spends: Seq<(Address, nat)>, token: Address)
    ensures
        total(spends, token) == if plain_total(spends, token) > u256_max() {
            u256_max()
        } else {
            plain_total(spends, token)
        },
    decreases spends.len(),
{
    if spends.len() > 0 {
        lemma_total_is_capped_plain(spends.drop_last(), token);
    }
}

/// The sentinel total is the gas deduction plus the values, capped.
proof fn lemma_sentinel_total_is_capped(calls: Seq<AaCall>, gas_deduction: nat)
    requires
        gas_deduction <= u256_max(),
    ensures
        sentinel_total(calls, gas_deduction) == if gas_deduction + value_sum(calls) > u256_max() {
            u256_max()
        } else {
            gas_deduction + value_sum(calls)
        },
    decreases calls.len(),
{
    if calls.len() > 0 {
        lemma_sentinel_total_is_capped(calls.drop_last(), gas_deduction);
    }
}

/// What a batch meters against a token: its values against the sentinel,
/// and its classified token calls against their tokens.
proof fn lemma_batch_plain_total(root: nat, calls: Seq<AaCall>, token: Address)
    ensures
        plain_total(batch_spends(root, calls), token) == (if token == sentinel() {
            value_sum(calls)
        } else {
            0
        }) + plain_total(token_deductions(root, calls), token),
    decreases calls.len(),
{
    if calls.len() > 0 {
        let c = calls.last();
        let prev = calls.drop_last();
        lemma_batch_plain_total(root, prev, token);
        lemma_plain_total_concat(batch_spends(root, prev), call_spends(root, c), token);
        let value_spend: Seq<(Address, nat)> = if c.value@ != 0 {
            seq![(sentinel(), c.value@)]
        } else {
            seq![]
        };
        let token_spend: Seq<(Address, nat)> = match c.to {
            TxKind::Call(target) => match spec_classify(root, target, c.input@) {
                Some((t, amount)) => seq![(t, amount)],
                None => seq![],
            },
            TxKind::Create => seq![],
        };
        lemma_plain_total_concat(value_spend, token_spend, token);
        lemma_plain_total_concat(token_deductions(root, prev), token_spend, token);
        lemma_plain_total_small(value_spend, token);
        lemma_plain_total_small(token_spend, token);
        match c.to {
            TxKind::Call(target) => match spec_classify(root, target, c.input@) {
                Some((t, amount)) => {
                    assert(token_deductions(root, calls) =~= token_deductions(root, prev) + token_spend);
                },
                None => {
                    assert(token_deductions(root, calls) =~= token_deductions(root, prev) + token_spend);
                },
            },
            TxKind::Create => {
                assert(token_deductions(root, calls) =~= token_deductions(root, prev) + token_spend);
            },
        }
    }
}

/// Law (deferred metering): for every token, what the post-execution
/// deductions charge adds up to no more than the pre-flight metered, as
/// long as the gas deducted stays within the gas reserved. The token calls
/// charge the same amounts in both; the sentinel is charged the gas
/// deduction plus the values, capped, against the values plus the
/// reservation.
pub proof fn lemma_deductions_within_preflight(
    root: nat,
    calls: Seq<AaCall>,
    gas_deduction: nat,
    gas_reservation: nat,
    token: Address,
)
    requires
        gas_deduction <= gas_reservation,
        gas_deduction <= u256_max(),
    ensures
        plain_total(deduction_plan(root, calls, gas_deduction), token) <= plain_total(
            preflight_spends(root, calls, gas_reservation),
            token,
        ),
{
    let st = sentinel_total(calls, gas_deduction);
    let hs: Seq<(Address, nat)> = if st != 0 {
        seq![(sentinel(), st)]
    } else {
        seq![]
    };
    let rs: Seq<(Address, nat)> = if gas_reservation != 0 {
        seq![(sentinel(), gas_reservation)]
    } else {
        seq![]
    };
    lemma_plain_total_concat(hs, token_deductions(root, calls), token);
    lemma_plain_total_concat(batch_spends(root, calls), rs, token);
    lemma_batch_plain_total(root, calls, token);
    lemma_sentinel_total_is_capped(calls, gas_deduction);
    lemma_plain_total_small(hs, token);
    lemma_plain_total_small(rs, token);
}

/// Law (the hook's promise): when the pre-flight passed for a token (its
/// total within the remaining quota) without its total being capped at the
/// largest word, the deductions applied after the batch, taken together,
/// fit that quota, for any gas deduction within the reservation.
pub proof fn lemma_post_execution_fits_quota(
    root: nat,
    calls: Seq<AaCall>,
    gas_deduction: nat,
    gas_reservation: nat,
    token: Address,
    remaining: nat,
)
    requires
        gas_deduction <= gas_reservation,
        gas_deduction <= u256_max(),
        total(preflight_spends(root, calls, gas_reservation), token) <= remaining,
        total(preflight_spends(root, calls, gas_reservation), token) < u256_max(),
    ensures
        plain_total(deduction_plan(root, calls, gas_deduction), token) <= remaining,
{
    lemma_deductions_within_preflight(root, calls, gas_deduction, gas_reservation, token);
    lemma_total_is_capped_plain(preflight_spends(root, calls, gas_reservation), token);
}

} // verus!
