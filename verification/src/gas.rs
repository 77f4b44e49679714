//! Gas accounting for precompile execution: the regular-gas tracker the
//! keychain storage layer charges against, and the state-gas (EIP-8037)
//! schedule, which SCI does not adopt and therefore prices at zero.
use vstd::prelude::*;

verus! {

/// `a + b` clamped to the `i64` range.
pub open spec fn sat_add_i64(a: int, b: int) -> int {
    if a + b > i64::MAX {
        i64::MAX as int
    } else if a + b < i64::MIN {
        i64::MIN as int
    } else {
        a + b
    }
}

/// `a + b` clamped to the `u64` range.
pub open spec fn sat_add_u64(a: int, b: int) -> int {
    if a + b > u64::MAX {
        u64::MAX as int
    } else {
        a + b
    }
}

/// Saturating `i64` addition.
pub fn saturating_add_i64(a: i64, b: i64) -> (r: i64)
    ensures
        r == sat_add_i64(a as int, b as int),
{
    if b > 0 && a > i64::MAX - b {
        i64::MAX
    } else if b < 0 && a < i64::MIN - b {
        i64::MIN
    } else {
        a + b
    }
}

/// The counters a [`GasTracker`] holds.
pub struct GasCounters {
    pub limit: u64,
    pub used: u64,
    pub state_used: u64,
    pub reservoir: u64,
    pub refunded: i64,
}

/// Error type for [`GasTracker`] operations.
#[derive(Clone, Copy, Debug, PartialEq, Eq, Structural)]
pub enum GasTrackerError {
    /// Insufficient gas remaining.
    OutOfGas,
}

/// Regular-gas tracker with a (never consulted) state-gas reservoir.
///
/// Regular gas used never exceeds the limit; state gas stays at zero, because
/// no state-gas cost is ever recorded against it.
#[derive(Clone, Copy, Debug, Default, PartialEq, Eq, Structural)]
pub struct GasTracker {
    gas_limit: u64,
    gas_used: u64,
    state_gas_used: u64,
    reservoir: u64,
    gas_refunded: i64,
}

impl View for GasTracker {
    type V = GasCounters;

    closed spec fn view(&self) -> GasCounters {
        GasCounters {
            limit: self.gas_limit,
            used: self.gas_used,
            state_used: self.state_gas_used,
            reservoir: self.reservoir,
            refunded: self.gas_refunded,
        }
    }
}

impl GasTracker {
    /// The tracker's invariant: regular gas used stays within the limit and no
    /// state gas is ever charged.
    pub open spec fn wf(&self) -> bool {
        &&& self@.used <= self@.limit
        &&& self@.state_used == 0
    }

    /// A fresh tracker with nothing used; the reservoir is carried as given.
    pub fn new(gas_limit: u64, _initial_gas: u64, reservoir: u64) -> (r: GasTracker)
        ensures
            r.wf(),
            r@.limit == gas_limit,
            r@.used == 0,
            r@.reservoir == reservoir,
            r@.refunded == 0,
    {
        GasTracker { gas_limit, gas_used: 0, state_gas_used: 0, reservoir, gas_refunded: 0 }
    }

    /// The gas limit.
    pub fn limit(&self) -> (r: u64)
        ensures
            r == self@.limit,
    {
        self.gas_limit
    }

    /// The gas limit (alias of [`Self::limit`]).
    pub fn gas_limit(&self) -> (r: u64)
        ensures
            r == self@.limit,
    {
        self.gas_limit
    }

    /// Regular gas used so far.
    pub fn gas_used(&self) -> (r: u64)
        ensures
            r == self@.used,
    {
        self.gas_used
    }

    /// Regular gas left: the limit minus what was used, floored at zero.
    pub fn remaining(&self) -> (r: u64)
        ensures
            r == if self@.limit >= self@.used {
                self@.limit - self@.used
            } else {
                0
            },
    {
        self.gas_limit.saturating_sub(self.gas_used)
    }

    /// State gas used (always zero).
    pub fn state_gas_used(&self) -> (r: u64)
        ensures
            r == self@.state_used,
    {
        self.state_gas_used
    }

    /// State gas used (alias of [`Self::state_gas_used`]).
    pub fn state_gas_spent(&self) -> (r: u64)
        ensures
            r == self@.state_used,
    {
        self.state_gas_used
    }

    /// The reservoir given at construction.
    pub fn reservoir(&self) -> (r: u64)
        ensures
            r == self@.reservoir,
    {
        self.reservoir
    }

    /// Gas refunded so far.
    pub fn gas_refunded(&self) -> (r: i64)
        ensures
            r == self@.refunded,
    {
        self.gas_refunded
    }

    /// Gas refunded so far (alias of [`Self::gas_refunded`]).
    pub fn refunded(&self) -> (r: i64)
        ensures
            r == self@.refunded,
    {
        self.gas_refunded
    }

    /// Deducting state gas always succeeds and changes nothing.
    pub fn deduct_state_gas(&mut self, _amount: u64) -> (r: Result<(), GasTrackerError>)
        ensures
            final(self)@ == apply_op(old(self)@, GasOp::DeductStateGas(_amount)),
            r is Ok,
            final(self)@ == old(self)@,
    {
        Ok(())
    }

    /// Recording a state-creating cost always succeeds and changes nothing.
    pub fn record_state_cost(&mut self, _amount: u64) -> (r: bool)
        ensures
            final(self)@ == apply_op(old(self)@, GasOp::RecordStateCost(_amount)),
            r,
            final(self)@ == old(self)@,
    {
        true
    }

    /// Records `amount` of regular gas: succeeds and adds it to the used
    /// counter (saturating) iff the result stays within the limit; otherwise
    /// nothing changes.
    pub fn record_regular_cost(&mut self, amount: u64) -> (r: bool)
        ensures
            final(self)@ == apply_op(old(self)@, GasOp::RecordRegularCost(amount)),
            r == (sat_add_u64(old(self)@.used as int, amount as int) <= old(self)@.limit),
            r ==> final(self)@.used == sat_add_u64(old(self)@.used as int, amount as int),
            !r ==> final(self)@.used == old(self)@.used,
            final(self)@.limit == old(self)@.limit,
            final(self)@.state_used == old(self)@.state_used,
            final(self)@.reservoir == old(self)@.reservoir,
            final(self)@.refunded == old(self)@.refunded,
            old(self).wf() ==> final(self).wf(),
    {
        let new_used = self.gas_used.saturating_add(amount);
        if new_used > self.gas_limit {
            return false;
        }
        self.gas_used = new_used;
        true
    }

    /// Adds `amount` to the refund counter, saturating.
    pub fn record_refund(&mut self, amount: i64)
        ensures
            final(self)@ == apply_op(old(self)@, GasOp::RecordRefund(amount)),
            final(self)@.refunded == sat_add_i64(old(self)@.refunded as int, amount as int),
            final(self)@.limit == old(self)@.limit,
            final(self)@.used == old(self)@.used,
            final(self)@.state_used == old(self)@.state_used,
            final(self)@.reservoir == old(self)@.reservoir,
    {
        self.gas_refunded = saturating_add_i64(self.gas_refunded, amount);
    }

    /// Deducts `amount` of regular gas; fails with [`GasTrackerError::OutOfGas`]
    /// (changing nothing) when the result would exceed the limit.
    pub fn deduct_gas(&mut self, amount: u64) -> (r: Result<(), GasTrackerError>)
        ensures
            final(self)@ == apply_op(old(self)@, GasOp::DeductGas(amount)),
            r is Ok <==> sat_add_u64(old(self)@.used as int, amount as int) <= old(self)@.limit,
            r is Ok ==> final(self)@.used == sat_add_u64(old(self)@.used as int, amount as int),
            r is Err ==> final(self)@.used == old(self)@.used,
            final(self)@.limit == old(self)@.limit,
            final(self)@.state_used == old(self)@.state_used,
            final(self)@.reservoir == old(self)@.reservoir,
            final(self)@.refunded == old(self)@.refunded,
            old(self).wf() ==> final(self).wf(),
    {
        let new_used = self.gas_used.saturating_add(amount);
        if new_used > self.gas_limit {
            return Err(GasTrackerError::OutOfGas);
        }
        self.gas_used = new_used;
        Ok(())
    }

    /// Adds `amount` to the refund counter, saturating.
    pub fn refund_gas(&mut self, amount: i64)
        ensures
            final(self)@ == apply_op(old(self)@, GasOp::RefundGas(amount)),
            final(self)@.refunded == sat_add_i64(old(self)@.refunded as int, amount as int),
            final(self)@.limit == old(self)@.limit,
            final(self)@.used == old(self)@.used,
            final(self)@.state_used == old(self)@.state_used,
            final(self)@.reservoir == old(self)@.reservoir,
    {
        self.gas_refunded = saturating_add_i64(self.gas_refunded, amount);
    }
}

/// The operations that change a [`GasTracker`], one per mutating method.
#[derive(Clone, Copy, Debug, PartialEq, Eq, Structural)]
pub enum GasOp {
    /// [`GasTracker::deduct_state_gas`].
    DeductStateGas(u64),
    /// [`GasTracker::record_state_cost`].
    RecordStateCost(u64),
    /// [`GasTracker::record_regular_cost`].
    RecordRegularCost(u64),
    /// [`GasTracker::record_refund`].
    RecordRefund(i64),
    /// [`GasTracker::deduct_gas`].
    DeductGas(u64),
    /// [`GasTracker::refund_gas`].
    RefundGas(i64),
}

/// Regular gas charged: `amount` added (saturating) when the result stays
/// within the limit; otherwise the counters are unchanged.
pub open spec fn charge(c: GasCounters, amount: u64) -> GasCounters {
    if sat_add_u64(c.used as int, amount as int) <= c.limit {
        GasCounters {
            limit: c.limit,
            used: sat_add_u64(c.used as int, amount as int) as u64,
            state_used: c.state_used,
            reservoir: c.reservoir,
            refunded: c.refunded,
        }
    } else {
        c
    }
}

/// A refund recorded: `amount` added to the refund counter, saturating.
pub open spec fn refund(c: GasCounters, amount: i64) -> GasCounters {
    GasCounters {
        limit: c.limit,
        used: c.used,
        state_used: c.state_used,
        reservoir: c.reservoir,
        refunded: sat_add_i64(c.refunded as int, amount as int) as i64,
    }
}

/// The counters after one operation. State-gas operations change nothing.
pub open spec fn apply_op(c: GasCounters, op: GasOp) -> GasCounters {
    match op {
        GasOp::DeductStateGas(_) => c,
        GasOp::RecordStateCost(_) => c,
        GasOp::RecordRegularCost(a) => charge(c, a),
        GasOp::DeductGas(a) => charge(c, a),
        GasOp::RecordRefund(a) => refund(c, a),
        GasOp::RefundGas(a) => refund(c, a),
    }
}

/// The counters after a run of operations, applied in order.
pub open spec fn apply_ops(c: GasCounters, ops: Seq<GasOp>) -> GasCounters
    decreases ops.len(),
{
    if ops.len() == 0 {
        c
    } else {
        apply_op(apply_ops(c, ops.drop_last()), ops.last())
    }
}

/// Law: any run of operations on a tracker keeps its limit and reservoir,
/// keeps state gas where it was, and keeps regular gas used within the
/// limit if it started there.
pub proof fn lemma_gas_run_keeps_counters(c: GasCounters, ops: Seq<GasOp>)
    ensures
        apply_ops(c, ops).limit == c.limit,
        apply_ops(c, ops).reservoir == c.reservoir,
        apply_ops(c, ops).state_used == c.state_used,
        c.used <= c.limit ==> apply_ops(c, ops).used <= c.limit,
    decreases ops.len(),
{
    if ops.len() > 0 {
        lemma_gas_run_keeps_counters(c, ops.drop_last());
    }
}

/// Law: whatever run of operations follows `GasTracker::new(limit, _,
/// reservoir)`, state gas stays zero, the limit and the reservoir stay as
/// given, and regular gas used never exceeds the limit.
pub proof fn lemma_fresh_tracker_run(limit: u64, reservoir: u64, ops: Seq<GasOp>)
    ensures
        ({
            let c = apply_ops(
                GasCounters { limit, used: 0, state_used: 0, reservoir, refunded: 0 },
                ops,
            );
            c.state_used == 0 && c.limit == limit && c.reservoir == reservoir && c.used <= limit
        }),
{
    lemma_gas_run_keeps_counters(GasCounters { limit, used: 0, state_used: 0, reservoir, refunded: 0 }, ops);
}

/// Law: on a well-formed tracker, used plus remaining is always the limit.
pub proof fn lemma_used_plus_remaining(t: GasTracker)
    requires
        t.wf(),
    ensures
        t@.used + (t@.limit - t@.used) == t@.limit,
        t@.used <= t@.limit,
{
}

/// Law: a successful deduction of `a` followed by one of `b` leaves the same
/// used gas as a single deduction of `a + b` (when nothing saturates).
pub proof fn lemma_deductions_compose(used: u64, limit: u64, a: u64, b: u64)
    requires
        used + a + b <= limit,
    ensures
        sat_add_u64(used as int, a as int) <= limit,
        sat_add_u64(sat_add_u64(used as int, a as int), b as int) == sat_add_u64(
            used as int,
            a + b,
        ),
{
}

/// State-gas prices of the EIP-8037 schedule. SCI does not adopt state gas,
/// so every price is zero.
pub trait GasParamsExt {
    /// State gas for a code deposit of `code_len` bytes: zero.
    fn code_deposit_state_gas(&self, code_len: usize) -> (r: u64)
        ensures
            r == 0,
    {
        0
    }

    /// State gas for a CREATE / CREATE2: zero.
    fn create_state_gas(&self) -> (r: u64)
        ensures
            r == 0,
    {
        0
    }

    /// State gas for an SSTORE with the given outcome: zero.
    fn sstore_state_gas<R>(&self, result: R) -> (r: u64)
        ensures
            r == 0,
    {
        0
    }
}

/// The host EVM's gas price table.
#[verifier::external_type_specification]
#[verifier::external_body]
pub struct ExGasParams(revm::context_interface::cfg::GasParams);

/// The host's gas table answers the state-gas prices with zero.
impl GasParamsExt for revm::context_interface::cfg::GasParams {}

} // verus!
