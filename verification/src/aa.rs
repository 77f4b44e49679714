//! The SCI account-abstraction transaction (type `0x76`): a batch of calls
//! with an optional fee payer and an optional root account, and what it
//! reports through the transaction interface.
use vstd::prelude::*;
use crate::hook::{AaCall, TxKind};
use crate::primitives::{Address, U256, sat_add};
use crate::tx_type::SCI_AA_TX_TYPE_ID;

verus! {

/// One inner call inside an AA batch.
pub type Call = AaCall;

impl View for AaCall {
    type V = (TxKind, U256, Seq<u8>);

    open spec fn view(&self) -> (TxKind, U256, Seq<u8>) {
        (self.to, self.value, self.input@)
    }
}

/// A 32-byte word used as a hash or a storage key.
#[derive(Clone, Copy, Debug, PartialEq, Eq, Hash, Structural)]
pub struct B256 {
    /// The most significant 128 bits.
    pub hi: u128,
    /// The least significant 128 bits.
    pub lo: u128,
}

/// One entry of an EIP-2930 access list.
#[derive(Clone, Debug, PartialEq, Eq)]
pub struct AccessListItem {
    /// The account accessed.
    pub address: Address,
    /// The storage keys accessed.
    pub storage_keys: Vec<B256>,
}

impl View for AccessListItem {
    type V = (Address, Seq<B256>);

    open spec fn view(&self) -> (Address, Seq<B256>) {
        (self.address, self.storage_keys@)
    }
}

/// The calls of a batch, each by its view.
pub open spec fn calls_view(calls: Seq<Call>) -> Seq<(TxKind, U256, Seq<u8>)> {
    calls.map_values(|c: Call| c@)
}

/// An access list, each entry by its view.
pub open spec fn access_list_view(l: Seq<AccessListItem>) -> Seq<(Address, Seq<B256>)> {
    l.map_values(|i: AccessListItem| i@)
}

/// The value of an AA transaction.
pub struct BaseAaTransactionView {
    pub chain_id: u64,
    pub nonce: u64,
    pub max_priority_fee_per_gas: u128,
    pub max_fee_per_gas: u128,
    pub gas_limit: u64,
    pub calls: Seq<(TxKind, U256, Seq<u8>)>,
    pub access_list: Seq<(Address, Seq<B256>)>,
    pub fee_payer: Option<Address>,
    pub root: Option<Address>,
}

/// SCI account-abstraction transaction (type `0x76`).
#[derive(Clone, Debug, PartialEq, Eq)]
pub struct BaseAaTransaction {
    /// Chain ID.
    pub chain_id: u64,
    /// Sender nonce.
    pub nonce: u64,
    /// EIP-1559 max priority fee per gas.
    pub max_priority_fee_per_gas: u128,
    /// EIP-1559 max fee per gas.
    pub max_fee_per_gas: u128,
    /// Gas limit.
    pub gas_limit: u64,
    /// Batch of calls executed atomically.
    pub calls: Vec<Call>,
    /// EIP-2930 access list.
    pub access_list: Vec<AccessListItem>,
    /// Optional fee payer (sponsored gas); `None` means the sender pays gas.
    pub fee_payer: Option<Address>,
    /// Optional root account the calls execute on behalf of; `None` means a
    /// plain batch executed as the signer itself.
    pub root: Option<Address>,
}

impl View for BaseAaTransaction {
    type V = BaseAaTransactionView;

    open spec fn view(&self) -> BaseAaTransactionView {
        BaseAaTransactionView {
            chain_id: self.chain_id,
            nonce: self.nonce,
            max_priority_fee_per_gas: self.max_priority_fee_per_gas,
            max_fee_per_gas: self.max_fee_per_gas,
            gas_limit: self.gas_limit,
            calls: calls_view(self.calls@),
            access_list: access_list_view(self.access_list@),
            fee_payer: self.fee_payer,
            root: self.root,
        }
    }
}

/// An EIP-1559 transaction body.
#[derive(Clone, Debug, PartialEq, Eq)]
pub struct TxEip1559 {
    pub chain_id: u64,
    pub nonce: u64,
    pub gas_limit: u64,
    pub max_fee_per_gas: u128,
    pub max_priority_fee_per_gas: u128,
    pub to: TxKind,
    pub value: U256,
    pub access_list: Vec<AccessListItem>,
    pub input: Vec<u8>,
}

/// The total value a batch moves: the values of its calls added up with
/// saturation at the largest 256-bit word, from the first call on.
pub open spec fn batch_value(calls: Seq<Call>) -> nat
    decreases calls.len(),
{
    if calls.len() == 0 {
        0
    } else {
        sat_add(batch_value(calls.drop_last()), calls.last().value@)
    }
}

/// What the effective gas price is: without a base fee the max fee; with
/// one, the base fee plus the priority fee where the max fee exceeds the
/// base fee by more than the priority fee, the max fee otherwise.
pub open spec fn spec_effective_gas_price(max_fee: u128, max_priority_fee: u128, base_fee: Option<u64>) -> int {
    match base_fee {
        None => max_fee as int,
        Some(b) => {
            let tip: int = if max_fee > b {
                max_fee - b
            } else {
                0
            };
            if tip > max_priority_fee {
                max_priority_fee + b
            } else {
                max_fee as int
            }
        },
    }
}

/// `alloy_eips::eip1559::calc_effective_gas_price`, whose result the crate
/// documents and computes as [`spec_effective_gas_price`] states (the
/// saturating tip, then the choice between `priority + base` and the max fee).
#[verifier::external_body]
fn calc_effective_gas_price(max_fee_per_gas: u128, max_priority_fee_per_gas: u128, base_fee: Option<u64>) -> (r: u128)
    ensures
        r == spec_effective_gas_price(max_fee_per_gas, max_priority_fee_per_gas, base_fee),
{
    alloy_eips::eip1559::calc_effective_gas_price(max_fee_per_gas, max_priority_fee_per_gas, base_fee)
}

/// A copy of a call.
pub fn clone_call(c: &Call) -> (r: Call)
    ensures
        r@ == c@,
{
    AaCall { to: c.to, value: c.value, input: c.input.clone() }
}

/// A copy of an access list, entry by entry.
pub fn clone_access_list(l: &Vec<AccessListItem>) -> (r: Vec<AccessListItem>)
    ensures
        access_list_view(r@) == access_list_view(l@),
{
    let mut out: Vec<AccessListItem> = Vec::new();
    let mut i: usize = 0;
    while i < l.len()
        invariant
            i <= l.len(),
            out@.len() == i,
            forall|j: int| 0 <= j < i ==> #[trigger] out@[j]@ == l@[j]@,
        decreases l.len() - i,
    {
        let item = &l[i];
        let keys = item.storage_keys.clone();
        proof {
            assert(keys@ =~= item.storage_keys@);
        }
        out.push(AccessListItem { address: item.address, storage_keys: keys });
        i = i + 1;
    }
    assert(access_list_view(out@) =~= access_list_view(l@));
    out
}

impl BaseAaTransaction {
    /// The transaction type id, `0x76`.
    pub fn tx_type() -> (r: u8)
        ensures
            r == SCI_AA_TX_TYPE_ID,
    {
        SCI_AA_TX_TYPE_ID
    }

    /// The EIP-2718 type byte of this transaction, `0x76`.
    pub fn ty(&self) -> (r: u8)
        ensures
            r == SCI_AA_TX_TYPE_ID,
    {
        SCI_AA_TX_TYPE_ID
    }

    /// The chain id; an AA transaction always carries one.
    pub fn chain_id(&self) -> (r: Option<u64>)
        ensures
            r == Some(self.chain_id),
    {
        Some(self.chain_id)
    }

    /// The sender nonce.
    pub fn nonce(&self) -> (r: u64)
        ensures
            r == self.nonce,
    {
        self.nonce
    }

    /// The gas limit.
    pub fn gas_limit(&self) -> (r: u64)
        ensures
            r == self.gas_limit,
    {
        self.gas_limit
    }

    /// The legacy gas price: none, this is a dynamic-fee transaction.
    pub fn gas_price(&self) -> (r: Option<u128>)
        ensures
            r is None,
    {
        None
    }

    /// The max fee per gas.
    pub fn max_fee_per_gas(&self) -> (r: u128)
        ensures
            r == self.max_fee_per_gas,
    {
        self.max_fee_per_gas
    }

    /// The max priority fee per gas.
    pub fn max_priority_fee_per_gas(&self) -> (r: Option<u128>)
        ensures
            r == Some(self.max_priority_fee_per_gas),
    {
        Some(self.max_priority_fee_per_gas)
    }

    /// The max fee per blob gas: none, an AA transaction carries no blobs.
    pub fn max_fee_per_blob_gas(&self) -> (r: Option<u128>)
        ensures
            r is None,
    {
        None
    }

    /// The priority fee.
    pub fn priority_fee_or_price(&self) -> (r: u128)
        ensures
            r == self.max_priority_fee_per_gas,
    {
        self.max_priority_fee_per_gas
    }

    /// The gas price paid under `base_fee`; see [`spec_effective_gas_price`].
    pub fn effective_gas_price(&self, base_fee: Option<u64>) -> (r: u128)
        ensures
            r == spec_effective_gas_price(self.max_fee_per_gas, self.max_priority_fee_per_gas, base_fee),
    {
        calc_effective_gas_price(self.max_fee_per_gas, self.max_priority_fee_per_gas, base_fee)
    }

    /// Always `true`: the fee fields are EIP-1559 ones.
    pub fn is_dynamic_fee(&self) -> (r: bool)
        ensures
            r,
    {
        true
    }

    /// The target of the first call, or `Create` for an empty batch.
    pub fn kind(&self) -> (r: TxKind)
        ensures
            self.calls@.len() > 0 ==> r == self.calls@[0].to,
            self.calls@.len() == 0 ==> r == TxKind::Create,
    {
        if self.calls.len() > 0 {
            self.calls[0].to
        } else {
            TxKind::Create
        }
    }

    /// `true` iff [`Self::kind`] is `Create`.
    pub fn is_create(&self) -> (r: bool)
        ensures
            r == (self.calls@.len() == 0 || self.calls@[0].to is Create),
    {
        match self.kind() {
            TxKind::Create => true,
            TxKind::Call(_) => false,
        }
    }

    /// The total value of the batch; see [`batch_value`].
    pub fn value(&self) -> (r: U256)
        ensures
            r@ == batch_value(self.calls@),
    {
        let mut acc = U256::zero();
        let mut i: usize = 0;
        while i < self.calls.len()
            invariant
                i <= self.calls@.len(),
                acc@ == batch_value(self.calls@.subrange(0, i as int)),
            decreases self.calls@.len() - i,
        {
            proof {
                let s = self.calls@.subrange(0, i + 1);
                assert(s.drop_last() =~= self.calls@.subrange(0, i as int));
            }
            acc = acc.saturating_add(&self.calls[i].value);
            i = i + 1;
        }
        assert(self.calls@.subrange(0, self.calls@.len() as int) =~= self.calls@);
        acc
    }

    /// The calldata of the first call, or empty for an empty batch.
    pub fn input(&self) -> (r: &[u8])
        ensures
            self.calls@.len() > 0 ==> r@ == self.calls@[0].input@,
            self.calls@.len() == 0 ==> r@.len() == 0,
    {
        if self.calls.len() > 0 {
            self.calls[0].input.as_slice()
        } else {
            &[]
        }
    }

    /// The blob versioned hashes: none, an AA transaction carries no blobs.
    pub fn blob_versioned_hashes(&self) -> (r: Option<&[B256]>)
        ensures
            r is None,
    {
        None
    }

    /// The access list.
    pub fn access_list(&self) -> (r: Option<&Vec<AccessListItem>>)
        ensures
            r == Some(&self.access_list),
    {
        Some(&self.access_list)
    }

    /// Replaces the chain id.
    pub fn set_chain_id(&mut self, chain_id: u64)
        ensures
            final(self)@ == (BaseAaTransactionView { chain_id, ..old(self)@ }),
    {
        self.chain_id = chain_id;
    }

    /// The EIP-1559 transaction that runs only this transaction's first call
    /// (a `Create` with no value and no input for an empty batch), with the
    /// same chain id, nonce, gas and fee fields and access list; the fee
    /// payer, the root and any further calls are dropped.
    pub fn to_eip1559_first_call(&self) -> (r: TxEip1559)
        ensures
            r.chain_id == self.chain_id,
            r.nonce == self.nonce,
            r.gas_limit == self.gas_limit,
            r.max_fee_per_gas == self.max_fee_per_gas,
            r.max_priority_fee_per_gas == self.max_priority_fee_per_gas,
            access_list_view(r.access_list@) == access_list_view(self.access_list@),
            self.calls@.len() > 0 ==> (r.to, r.value, r.input@) == self.calls@[0]@,
            self.calls@.len() == 0 ==> (r.to == TxKind::Create && r.value@ == 0 && r.input@.len()
                == 0),
    {
        let (to, value, input) = if self.calls.len() > 0 {
            let c = &self.calls[0];
            (c.to, c.value, c.input.clone())
        } else {
            (TxKind::Create, U256::zero(), Vec::new())
        };
        TxEip1559 {
            chain_id: self.chain_id,
            nonce: self.nonce,
            gas_limit: self.gas_limit,
            max_fee_per_gas: self.max_fee_per_gas,
            max_priority_fee_per_gas: self.max_priority_fee_per_gas,
            to,
            value,
            access_list: clone_access_list(&self.access_list),
            input,
        }
    }
}

} // verus!
