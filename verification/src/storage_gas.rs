//! Gas metering of the precompiles' storage provider: how storage reads,
//! writes, transient access, account loads, code deposits and logs are
//! charged against the precompile's gas, before and after the journal does
//! the access.
//!
//! From T4 on, the static part of an access is charged before the journal is
//! touched, and a cold load is skipped when the gas left cannot pay for it;
//! before T4 the static part is charged after the access. Either way the
//! static cost is charged exactly once.
use vstd::prelude::*;
use crate::dispatch::TempoHardfork;
use crate::error::TempoPrecompileError;
use crate::gas::{GasTracker, sat_add_i64, sat_add_u64};

verus! {

/// How loading from the journal failed.
#[derive(Clone, Debug, PartialEq, Eq)]
pub enum JournalLoadError {
    /// The database failed.
    DbError(String),
    /// A cold load was skipped because the gas left could not pay for it.
    ColdLoadSkipped,
}

/// A database failure is fatal; a skipped cold load is out of gas.
pub fn journal_load_error(e: JournalLoadError) -> (r: TempoPrecompileError)
    ensures
        e matches JournalLoadError::DbError(m) ==> r == TempoPrecompileError::Fatal(m),
        e is ColdLoadSkipped ==> r == TempoPrecompileError::OutOfGas,
{
    match e {
        JournalLoadError::DbError(m) => TempoPrecompileError::Fatal(m),
        JournalLoadError::ColdLoadSkipped => TempoPrecompileError::OutOfGas,
    }
}

/// The gas side of the precompile storage provider.
pub struct StorageGasMeter {
    gas: GasTracker,
    spec: TempoHardfork,
    is_static: bool,
}

impl StorageGasMeter {
    /// The meter's tracker.
    pub closed spec fn tracker(self) -> GasTracker {
        self.gas
    }

    /// The hardfork the meter charges under.
    pub closed spec fn hardfork(self) -> TempoHardfork {
        self.spec
    }

    /// Whether the call is static.
    pub closed spec fn static_call(self) -> bool {
        self.is_static
    }

    /// Gas used so far.
    pub open spec fn used(self) -> nat {
        self.tracker()@.used as nat
    }

    /// A meter with `gas_limit` to spend and nothing used.
    pub fn new(gas_limit: u64, reservoir: u64, spec: TempoHardfork, is_static: bool) -> (r: StorageGasMeter)
        ensures
            r.tracker().wf(),
            r.tracker()@.limit == gas_limit,
            r.used() == 0,
            r.tracker()@.refunded == 0,
            r.tracker()@.reservoir == reservoir,
            r.hardfork() == spec,
            r.static_call() == is_static,
    {
        StorageGasMeter { gas: GasTracker::new(gas_limit, gas_limit, reservoir), spec, is_static }
    }

    /// Charges `cost`; out of gas (charging nothing) when it does not fit.
    pub fn deduct_gas(&mut self, cost: u64) -> (r: Result<(), TempoPrecompileError>)
        requires
            old(self).tracker().wf(),
        ensures
            final(self).tracker().wf(),
            r is Ok <==> sat_add_u64(old(self).used() as int, cost as int) <= old(self).tracker()@.limit,
            r is Ok ==> final(self).used() == sat_add_u64(old(self).used() as int, cost as int),
            r matches Err(e) ==> e == TempoPrecompileError::OutOfGas && final(self).used() == old(
                self,
            ).used(),
            final(self).tracker()@.limit == old(self).tracker()@.limit,
            final(self).tracker()@.refunded == old(self).tracker()@.refunded,
            final(self).hardfork() == old(self).hardfork(),
            final(self).static_call() == old(self).static_call(),
    {
        if !self.gas.record_regular_cost(cost) {
            return Err(TempoPrecompileError::OutOfGas);
        }
        Ok(())
    }

    /// Records a refund.
    pub fn refund_gas(&mut self, amount: i64)
        ensures
            final(self).tracker()@.refunded == sat_add_i64(old(self).tracker()@.refunded as int, amount as int),
            final(self).used() == old(self).used(),
            final(self).tracker()@.limit == old(self).tracker()@.limit,
            final(self).tracker() .wf() == old(self).tracker().wf(),
            final(self).hardfork() == old(self).hardfork(),
            final(self).static_call() == old(self).static_call(),
    {
        self.gas.record_refund(amount);
    }

    /// Gas used so far (the limit less what remains).
    pub fn gas_used(&self) -> (r: u64)
        requires
            self.tracker().wf(),
        ensures
            r as nat == self.used(),
    {
        self.gas.limit() - self.gas.remaining()
    }

    /// The gas limit.
    pub fn gas_limit(&self) -> (r: u64)
        ensures
            r == self.tracker()@.limit,
    {
        self.gas.limit()
    }

    /// The refund recorded so far.
    pub fn gas_refunded(&self) -> (r: i64)
        ensures
            r == self.tracker()@.refunded,
    {
        self.gas.refunded()
    }

    /// State gas used (SCI does not adopt state gas: always zero).
    pub fn state_gas_used(&self) -> (r: u64)
        requires
            self.tracker().wf(),
        ensures
            r == 0,
    {
        self.gas.state_gas_spent()
    }

    /// The hardfork the meter charges under.
    pub fn spec(&self) -> (r: TempoHardfork)
        ensures
            r == self.hardfork(),
    {
        self.spec
    }

    /// Whether the call is static.
    pub fn is_static(&self) -> (r: bool)
        ensures
            r == self.static_call(),
    {
        self.is_static
    }

    /// Before a journal access with static cost `static_cost` whose cold
    /// surcharge is `cold_extra`: from T4 on, charges the static cost and
    /// tells whether the cold load must be skipped (the gas left cannot pay
    /// the surcharge); before T4 charges nothing and never skips.
    pub fn before_access(&mut self, static_cost: u64, cold_extra: u64) -> (r: Result<bool, TempoPrecompileError>)
        requires
            old(self).tracker().wf(),
        ensures
            final(self).tracker().wf(),
            final(self).tracker()@.limit == old(self).tracker()@.limit,
            final(self).hardfork() == old(self).hardfork(),
            final(self).static_call() == old(self).static_call(),
            final(self).tracker()@.refunded == old(self).tracker()@.refunded,
            old(self).hardfork().rank() < 4 ==> r == Ok::<bool, TempoPrecompileError>(false)
                && final(self).used() == old(self).used(),
            old(self).hardfork().rank() >= 4 ==> (r is Ok <==> sat_add_u64(
                old(self).used() as int,
                static_cost as int,
            ) <= old(self).tracker()@.limit),
            old(self).hardfork().rank() >= 4 ==> (r matches Ok(skip) ==> final(self).used()
                == sat_add_u64(old(self).used() as int, static_cost as int) && skip == (
            final(self).tracker()@.limit - final(self).used() < cold_extra)),
            r is Ok ==> final(self).used() == before_access_used(
                old(self).hardfork(),
                old(self).used() as int,
                static_cost as int,
            ),
            r matches Err(e) ==> e == TempoPrecompileError::OutOfGas,
    {
        if self.spec.is_t4() {
            self.deduct_gas(static_cost)?;
            Ok(self.gas.remaining() < cold_extra)
        } else {
            Ok(false)
        }
    }

    /// After a journal access: before T4 charges the static cost; then charges
    /// the cold surcharge when the access was cold.
    pub fn after_access(&mut self, static_cost: u64, cold_extra: u64, is_cold: bool) -> (r: Result<(), TempoPrecompileError>)
        requires
            old(self).tracker().wf(),
        ensures
            final(self).tracker().wf(),
            final(self).tracker()@.limit == old(self).tracker()@.limit,
            final(self).hardfork() == old(self).hardfork(),
            final(self).static_call() == old(self).static_call(),
            final(self).tracker()@.refunded == old(self).tracker()@.refunded,
            r is Ok <==> after_access_fits(
                old(self).hardfork(),
                old(self).used() as int,
                static_cost as int,
                cold_extra as int,
                is_cold,
                old(self).tracker()@.limit as int,
            ),
            r is Ok ==> final(self).used() == after_access_used(
                old(self).hardfork(),
                old(self).used() as int,
                static_cost as int,
                cold_extra as int,
                is_cold,
            ),
            r is Err ==> final(self).used() == (if static_charge_fits(
                old(self).hardfork(),
                old(self).used() as int,
                static_cost as int,
                old(self).tracker()@.limit as int,
            ) {
                after_static_used(old(self).hardfork(), old(self).used() as int, static_cost as int)
            } else {
                old(self).used() as int
            }),
            r matches Err(e) ==> e == TempoPrecompileError::OutOfGas,
    {
        if !self.spec.is_t4() {
            self.deduct_gas(static_cost)?;
        }
        if is_cold {
            self.deduct_gas(cold_extra)?;
        }
        Ok(())
    }

    /// Charges a code deposit costing `deposit_cost` (its state gas is zero).
    pub fn charge_code_deposit(&mut self, deposit_cost: u64) -> (r: Result<(), TempoPrecompileError>)
        requires
            old(self).tracker().wf(),
        ensures
            final(self).tracker().wf(),
            r is Ok <==> sat_add_u64(old(self).used() as int, deposit_cost as int) <= old(self).tracker()@.limit,
            r is Ok ==> final(self).used() == sat_add_u64(old(self).used() as int, deposit_cost as int),
            r is Err ==> final(self).used() == old(self).used(),
            final(self).tracker()@.limit == old(self).tracker()@.limit,
            final(self).hardfork() == old(self).hardfork(),
            final(self).static_call() == old(self).static_call(),
    {
        self.deduct_gas(deposit_cost)
    }

    /// After code was set at an account: with EIP-8037 accounting enabled
    /// and an account that was empty, charges the deployment as a CREATE
    /// (the create cost, then the hashing cost of the code); otherwise
    /// charges nothing.
    pub fn charge_created_code(
        &mut self,
        eip8037_enabled: bool,
        was_empty: bool,
        create_cost: u64,
        keccak_cost: u64,
    ) -> (r: Result<(), TempoPrecompileError>)
        requires
            old(self).tracker().wf(),
        ensures
            final(self).tracker().wf(),
            !(eip8037_enabled && was_empty) ==> r is Ok && final(self).used() == old(self).used(),
            (eip8037_enabled && was_empty && r is Ok) ==> final(self).used() == sat_add_u64(
                sat_add_u64(old(self).used() as int, create_cost as int),
                keccak_cost as int,
            ),
            (eip8037_enabled && was_empty) ==> (r is Ok <==> (sat_add_u64(old(self).used() as int, create_cost as int)
                <= old(self).tracker()@.limit && sat_add_u64(
                sat_add_u64(old(self).used() as int, create_cost as int),
                keccak_cost as int,
            ) <= old(self).tracker()@.limit)),
            r matches Err(e) ==> e == TempoPrecompileError::OutOfGas,
            final(self).tracker()@.limit == old(self).tracker()@.limit,
            final(self).hardfork() == old(self).hardfork(),
            final(self).static_call() == old(self).static_call(),
    {
        if eip8037_enabled && was_empty {
            self.deduct_gas(create_cost)?;
            self.deduct_gas(keccak_cost)?;
        }
        Ok(())
    }

    /// A transient read or write costs the warm read cost.
    pub fn transient_access(&mut self, warm_cost: u64) -> (r: Result<(), TempoPrecompileError>)
        requires
            old(self).tracker().wf(),
        ensures
            final(self).tracker().wf(),
            r is Ok <==> sat_add_u64(old(self).used() as int, warm_cost as int) <= old(self).tracker()@.limit,
            r is Ok ==> final(self).used() == sat_add_u64(old(self).used() as int, warm_cost as int),
            r is Err ==> final(self).used() == old(self).used(),
            r matches Err(e) ==> e == TempoPrecompileError::OutOfGas,
            final(self).tracker()@.limit == old(self).tracker()@.limit,
            final(self).tracker()@.refunded == old(self).tracker()@.refunded,
            final(self).hardfork() == old(self).hardfork(),
            final(self).static_call() == old(self).static_call(),
    {
        self.deduct_gas(warm_cost)
    }

    /// A log costs the base log cost plus the cost of its topics and data.
    pub fn emit_event(&mut self, log_base: u64, log_cost: u64) -> (r: Result<(), TempoPrecompileError>)
        requires
            old(self).tracker().wf(),
        ensures
            final(self).tracker().wf(),
            log_base as nat + log_cost as nat > u64::MAX ==> r is Err,
            log_base as nat + log_cost as nat <= u64::MAX ==> (r is Ok <==> sat_add_u64(
                old(self).used() as int,
                log_base + log_cost,
            ) <= old(self).tracker()@.limit),
            r is Ok ==> final(self).used() == sat_add_u64(old(self).used() as int, log_base + log_cost),
            r is Err ==> final(self).used() == old(self).used(),
            log_base as nat + log_cost as nat > u64::MAX ==> r == Err::<(), TempoPrecompileError>(
                TempoPrecompileError::Panic(crate::error::PanicKind::UnderOverflow),
            ),
            log_base as nat + log_cost as nat <= u64::MAX ==> (r matches Err(e) ==> e
                == TempoPrecompileError::OutOfGas),
            final(self).tracker()@.limit == old(self).tracker()@.limit,
            final(self).tracker()@.refunded == old(self).tracker()@.refunded,
            final(self).hardfork() == old(self).hardfork(),
            final(self).static_call() == old(self).static_call(),
    {
        if log_cost > u64::MAX - log_base {
            return Err(TempoPrecompileError::Panic(crate::error::PanicKind::UnderOverflow));
        }
        self.deduct_gas(log_base + log_cost)
    }

    /// A store: after the access, the dynamic cost is charged and the refund
    /// recorded (state gas is zero).
    pub fn after_store(&mut self, dynamic_cost: u64, refund: i64) -> (r: Result<(), TempoPrecompileError>)
        requires
            old(self).tracker().wf(),
        ensures
            final(self).tracker().wf(),
            r is Ok <==> sat_add_u64(old(self).used() as int, dynamic_cost as int) <= old(self).tracker()@.limit,
            r is Ok ==> final(self).used() == sat_add_u64(old(self).used() as int, dynamic_cost as int)
                && final(self).tracker()@.refunded == sat_add_i64(
                old(self).tracker()@.refunded as int,
                refund as int,
            ),
            final(self).tracker()@.limit == old(self).tracker()@.limit,
            final(self).hardfork() == old(self).hardfork(),
    {
        self.deduct_gas(dynamic_cost)?;
        self.refund_gas(refund);
        Ok(())
    }
}

/// Gas used after [`StorageGasMeter::before_access`] succeeds: from T4 on,
/// the static cost added with saturation; before T4, unchanged.
pub open spec fn before_access_used(spec: TempoHardfork, used: int, static_cost: int) -> int {
    if spec.rank() >= 4 {
        sat_add_u64(used, static_cost)
    } else {
        used
    }
}

/// Gas used once [`StorageGasMeter::after_access`] has charged the static
/// cost: before T4 the static cost is added with saturation; from T4 on it
/// was charged already.
pub open spec fn after_static_used(spec: TempoHardfork, used: int, static_cost: int) -> int {
    if spec.rank() < 4 {
        sat_add_u64(used, static_cost)
    } else {
        used
    }
}

/// Whether the static part [`StorageGasMeter::after_access`] charges fits
/// the limit (there is none from T4 on).
pub open spec fn static_charge_fits(spec: TempoHardfork, used: int, static_cost: int, limit: int) -> bool {
    spec.rank() < 4 ==> sat_add_u64(used, static_cost) <= limit
}

/// Whether [`StorageGasMeter::after_access`] succeeds: the static part fits,
/// and then, for a cold access, the surcharge fits too.
pub open spec fn after_access_fits(
    spec: TempoHardfork,
    used: int,
    static_cost: int,
    cold_extra: int,
    is_cold: bool,
    limit: int,
) -> bool {
    &&& static_charge_fits(spec, used, static_cost, limit)
    &&& is_cold ==> sat_add_u64(after_static_used(spec, used, static_cost), cold_extra) <= limit
}

/// Gas used after [`StorageGasMeter::after_access`] succeeds: the static
/// cost before T4, then the cold surcharge when the access was cold, each
/// added with saturation.
pub open spec fn after_access_used(spec: TempoHardfork, used: int, static_cost: int, cold_extra: int, is_cold: bool) -> int {
    if is_cold {
        sat_add_u64(after_static_used(spec, used, static_cost), cold_extra)
    } else {
        after_static_used(spec, used, static_cost)
    }
}

/// Law: whichever the hardfork, a storage access charged before and after
/// the journal load pays its static cost exactly once, plus the cold
/// surcharge when cold (where the sum fits in a `u64`, so that nothing
/// saturates).
pub proof fn lemma_access_charged_once(
    spec: TempoHardfork,
    used: nat,
    static_cost: nat,
    cold_extra: nat,
    is_cold: bool,
)
    requires
        used + static_cost + cold_extra <= u64::MAX,
    ensures
        after_access_used(
            spec,
            before_access_used(spec, used as int, static_cost as int),
            static_cost as int,
            cold_extra as int,
            is_cold,
        ) == used + static_cost + (if is_cold {
            cold_extra
        } else {
            0
        }),
{
}

/// A journal checkpoint: the journal and log lengths when it was taken.
#[derive(Clone, Copy, Debug, PartialEq, Eq, Structural)]
pub struct JournalCheckpoint {
    pub journal_i: usize,
    pub log_i: usize,
}

/// The checkpoints taken and not yet committed or reverted, most recent
/// last, against which every commit and revert is checked to resolve the
/// most recent one first.
pub struct CheckpointStack {
    stack: Vec<(usize, usize)>,
}

impl View for CheckpointStack {
    type V = Seq<(usize, usize)>;

    closed spec fn view(&self) -> Seq<(usize, usize)> {
        self.stack@
    }
}

impl CheckpointStack {
    /// No checkpoint taken.
    pub fn new() -> (r: CheckpointStack)
        ensures
            r@ == Seq::<(usize, usize)>::empty(),
    {
        CheckpointStack { stack: Vec::new() }
    }

    /// Records a newly taken checkpoint.
    pub fn track_checkpoint(&mut self, cp: &JournalCheckpoint)
        ensures
            final(self)@ == old(self)@.push((cp.journal_i, cp.log_i)),
    {
        self.stack.push((cp.journal_i, cp.log_i));
    }

    /// `true` iff `cp` is the most recent unresolved checkpoint.
    pub fn is_top(&self, cp: &JournalCheckpoint) -> (r: bool)
        ensures
            r == (self@.len() > 0 && self@.last() == (cp.journal_i, cp.log_i)),
    {
        let n = self.stack.len();
        if n == 0 {
            return false;
        }
        let (j, l) = self.stack[n - 1];
        j == cp.journal_i && l == cp.log_i
    }

    /// Resolves (commits or reverts) `cp`, which must be the most recent
    /// unresolved checkpoint.
    pub fn assert_lifo(&mut self, cp: &JournalCheckpoint)
        requires
            old(self)@.len() > 0,
            old(self)@.last() == (cp.journal_i, cp.log_i),
        ensures
            final(self)@ == old(self)@.drop_last(),
    {
        self.stack.pop();
    }
}

/// Law: resolving the checkpoint just taken returns the stack to what it
/// was before it was taken, so nested checkpoints resolve innermost first.
pub proof fn lemma_checkpoint_lifo(stack: Seq<(usize, usize)>, cp: JournalCheckpoint)
    ensures
        stack.push((cp.journal_i, cp.log_i)).last() == (cp.journal_i, cp.log_i),
        stack.push((cp.journal_i, cp.log_i)).drop_last() == stack,
{
    assert(stack.push((cp.journal_i, cp.log_i)).drop_last() =~= stack);
}

} // verus!
