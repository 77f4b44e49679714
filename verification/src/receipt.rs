//! Receipts of the chain and the fields their compact (database) form keeps:
//! the transaction type, the status, the cumulative gas, the logs and, for
//! deposits, the deposit nonce and receipt version.
use vstd::prelude::*;
use crate::aa::B256;
use crate::primitives::Address;
use crate::tx_type::OpTxType;

verus! {

/// An event log.
#[derive(Clone, Debug, PartialEq, Eq)]
pub struct Log {
    /// The emitting account.
    pub address: Address,
    /// The indexed topics.
    pub topics: Vec<B256>,
    /// The unindexed data.
    pub data: Vec<u8>,
}

/// The receipt fields every transaction type has.
#[derive(Clone, Debug, PartialEq, Eq)]
pub struct Receipt {
    /// Whether the transaction succeeded.
    pub status: bool,
    /// Gas used in the block up to and including this transaction.
    pub cumulative_gas_used: u64,
    /// The logs emitted.
    pub logs: Vec<Log>,
}

/// A deposit transaction's receipt.
#[derive(Clone, Debug, PartialEq, Eq)]
pub struct DepositReceipt {
    /// The common receipt fields.
    pub inner: Receipt,
    /// The deposit nonce, from the Regolith hardfork on.
    pub deposit_nonce: Option<u64>,
    /// The deposit receipt version, from the Canyon hardfork on.
    pub deposit_receipt_version: Option<u64>,
}

/// A receipt of the chain, by transaction type. An AA transaction's receipt
/// is stored as an EIP-1559 one.
#[derive(Clone, Debug, PartialEq, Eq)]
pub enum BaseReceipt {
    Legacy(Receipt),
    Eip2930(Receipt),
    Eip1559(Receipt),
    Eip7702(Receipt),
    Deposit(DepositReceipt),
}

/// The fields of a receipt's compact form.
#[derive(Clone, Debug, PartialEq, Eq)]
pub struct CompactReceiptFields {
    pub tx_type: OpTxType,
    pub success: bool,
    pub cumulative_gas_used: u64,
    pub logs: Vec<Log>,
    pub deposit_nonce: Option<u64>,
    pub deposit_receipt_version: Option<u64>,
}

/// The common fields of a receipt.
pub open spec fn spec_inner(r: BaseReceipt) -> Receipt {
    match r {
        BaseReceipt::Legacy(x) => x,
        BaseReceipt::Eip2930(x) => x,
        BaseReceipt::Eip1559(x) => x,
        BaseReceipt::Eip7702(x) => x,
        BaseReceipt::Deposit(d) => d.inner,
    }
}

/// The transaction type of a receipt.
pub open spec fn spec_tx_type(r: BaseReceipt) -> OpTxType {
    match r {
        BaseReceipt::Legacy(_) => OpTxType::Legacy,
        BaseReceipt::Eip2930(_) => OpTxType::Eip2930,
        BaseReceipt::Eip1559(_) => OpTxType::Eip1559,
        BaseReceipt::Eip7702(_) => OpTxType::Eip7702,
        BaseReceipt::Deposit(_) => OpTxType::Deposit,
    }
}

/// The receipt a compact form stands for: the common fields under the
/// stored type (an AA type standing for an EIP-1559 receipt), and for a
/// deposit its nonce and version as stored.
pub open spec fn spec_from_compact(f: CompactReceiptFields) -> BaseReceipt {
    let inner = Receipt { status: f.success, cumulative_gas_used: f.cumulative_gas_used, logs: f.logs };
    match f.tx_type {
        OpTxType::Legacy => BaseReceipt::Legacy(inner),
        OpTxType::Eip2930 => BaseReceipt::Eip2930(inner),
        OpTxType::Eip1559 => BaseReceipt::Eip1559(inner),
        OpTxType::Eip7702 => BaseReceipt::Eip7702(inner),
        OpTxType::Aa => BaseReceipt::Eip1559(inner),
        OpTxType::Deposit => BaseReceipt::Deposit(
            DepositReceipt {
                inner,
                deposit_nonce: f.deposit_nonce,
                deposit_receipt_version: f.deposit_receipt_version,
            },
        ),
    }
}

impl BaseReceipt {
    /// The transaction type of this receipt.
    pub fn tx_type(&self) -> (r: OpTxType)
        ensures
            r == spec_tx_type(*self),
            *self is Legacy <==> r is Legacy,
            *self is Eip2930 <==> r is Eip2930,
            *self is Eip1559 <==> r is Eip1559,
            *self is Eip7702 <==> r is Eip7702,
            *self is Deposit <==> r is Deposit,
    {
        match self {
            BaseReceipt::Legacy(_) => OpTxType::Legacy,
            BaseReceipt::Eip2930(_) => OpTxType::Eip2930,
            BaseReceipt::Eip1559(_) => OpTxType::Eip1559,
            BaseReceipt::Eip7702(_) => OpTxType::Eip7702,
            BaseReceipt::Deposit(_) => OpTxType::Deposit,
        }
    }

    /// The common receipt fields.
    pub fn as_receipt(&self) -> (r: &Receipt)
        ensures
            *r == spec_inner(*self),
    {
        match self {
            BaseReceipt::Legacy(x) => x,
            BaseReceipt::Eip2930(x) => x,
            BaseReceipt::Eip1559(x) => x,
            BaseReceipt::Eip7702(x) => x,
            BaseReceipt::Deposit(d) => &d.inner,
        }
    }

    /// Whether the transaction succeeded.
    pub fn status(&self) -> (r: bool)
        ensures
            r == spec_inner(*self).status,
    {
        self.as_receipt().status
    }

    /// Gas used in the block up to and including this transaction.
    pub fn cumulative_gas_used(&self) -> (r: u64)
        ensures
            r == spec_inner(*self).cumulative_gas_used,
    {
        self.as_receipt().cumulative_gas_used
    }

    /// The compact form's fields: the type, status, cumulative gas and logs,
    /// and the deposit nonce and version for a deposit (`None` otherwise).
    pub fn into_compact_fields(self) -> (r: CompactReceiptFields)
        ensures
            r.tx_type == spec_tx_type(self),
            r.success == spec_inner(self).status,
            r.cumulative_gas_used == spec_inner(self).cumulative_gas_used,
            r.logs == spec_inner(self).logs,
            self matches BaseReceipt::Deposit(d) ==> (r.deposit_nonce == d.deposit_nonce
                && r.deposit_receipt_version == d.deposit_receipt_version),
            !(self is Deposit) ==> (r.deposit_nonce is None && r.deposit_receipt_version is None),
    {
        let tx_type = self.tx_type();
        match self {
            BaseReceipt::Deposit(d) => CompactReceiptFields {
                tx_type,
                success: d.inner.status,
                cumulative_gas_used: d.inner.cumulative_gas_used,
                logs: d.inner.logs,
                deposit_nonce: d.deposit_nonce,
                deposit_receipt_version: d.deposit_receipt_version,
            },
            BaseReceipt::Legacy(x) | BaseReceipt::Eip2930(x) | BaseReceipt::Eip1559(x)
            | BaseReceipt::Eip7702(x) => CompactReceiptFields {
                tx_type,
                success: x.status,
                cumulative_gas_used: x.cumulative_gas_used,
                logs: x.logs,
                deposit_nonce: None,
                deposit_receipt_version: None,
            },
        }
    }

    /// The receipt a compact form stands for; see [`spec_from_compact`].
    pub fn from_compact_fields(f: CompactReceiptFields) -> (r: BaseReceipt)
        ensures
            r == spec_from_compact(f),
            f.tx_type is Legacy <==> r is Legacy,
            f.tx_type is Eip2930 <==> r is Eip2930,
            (f.tx_type is Eip1559 || f.tx_type is Aa) <==> r is Eip1559,
            f.tx_type is Eip7702 <==> r is Eip7702,
            f.tx_type is Deposit <==> r is Deposit,
            spec_inner(r) == (Receipt { status: f.success, cumulative_gas_used: f.cumulative_gas_used, logs: f.logs }),
    {
        let inner = Receipt {
            status: f.success,
            cumulative_gas_used: f.cumulative_gas_used,
            logs: f.logs,
        };
        match f.tx_type {
            OpTxType::Legacy => BaseReceipt::Legacy(inner),
            OpTxType::Eip2930 => BaseReceipt::Eip2930(inner),
            OpTxType::Eip1559 => BaseReceipt::Eip1559(inner),
            OpTxType::Eip7702 => BaseReceipt::Eip7702(inner),
            OpTxType::Aa => BaseReceipt::Eip1559(inner),
            OpTxType::Deposit => BaseReceipt::Deposit(
                DepositReceipt {
                    inner,
                    deposit_nonce: f.deposit_nonce,
                    deposit_receipt_version: f.deposit_receipt_version,
                },
            ),
        }
    }
}

/// Storing a receipt in compact form and reading it back gives the same
/// receipt, whatever its type.
pub proof fn lemma_compact_receipt_roundtrip(r: BaseReceipt, f: CompactReceiptFields)
    requires
        f.tx_type == spec_tx_type(r),
        f.success == spec_inner(r).status,
        f.cumulative_gas_used == spec_inner(r).cumulative_gas_used,
        f.logs == spec_inner(r).logs,
        r matches BaseReceipt::Deposit(d) ==> (f.deposit_nonce == d.deposit_nonce
            && f.deposit_receipt_version == d.deposit_receipt_version),
    ensures
        spec_from_compact(f) == r,
{
}

/// Access to the deposit fields of a receipt.
pub trait DepositReceiptExt {
    /// The deposit receipt, mutably, if this is a deposit.
    fn as_deposit_receipt_mut(&mut self) -> Option<&mut DepositReceipt>;

    /// The deposit receipt, if this is a deposit.
    fn as_deposit_receipt(&self) -> Option<&DepositReceipt>;
}

impl DepositReceiptExt for BaseReceipt {
    fn as_deposit_receipt_mut(&mut self) -> (r: Option<&mut DepositReceipt>)
        ensures
            r is Some <==> *old(self) is Deposit,
            r matches Some(d) ==> (*old(self) == BaseReceipt::Deposit(*d) && *final(self)
                == BaseReceipt::Deposit(*final(d))),
            r is None ==> *final(self) == *old(self),
    {
        match self {
            BaseReceipt::Deposit(receipt) => Some(receipt),
            _ => None,
        }
    }

    fn as_deposit_receipt(&self) -> (r: Option<&DepositReceipt>)
        ensures
            r is Some <==> *self is Deposit,
            r matches Some(d) ==> *self == BaseReceipt::Deposit(*d),
    {
        match self {
            BaseReceipt::Deposit(receipt) => Some(receipt),
            _ => None,
        }
    }
}

/// Law: a receipt's transaction type is the type of its variant: a legacy
/// receipt is of the legacy type, an EIP-2930 receipt of the EIP-2930 type,
/// and so on; so receipts of different variants have different types, and
/// the type's byte is the variant's EIP-2718 id.
pub proof fn lemma_receipt_type_is_its_variant(r: BaseReceipt)
    ensures
        r is Legacy <==> spec_tx_type(r) is Legacy,
        r is Eip2930 <==> spec_tx_type(r) is Eip2930,
        r is Eip1559 <==> spec_tx_type(r) is Eip1559,
        r is Eip7702 <==> spec_tx_type(r) is Eip7702,
        r is Deposit <==> spec_tx_type(r) is Deposit,
        !(spec_tx_type(r) is Aa),
        r is Legacy ==> spec_tx_type(r).spec_ty() == 0,
        r is Eip2930 ==> spec_tx_type(r).spec_ty() == 1,
        r is Eip1559 ==> spec_tx_type(r).spec_ty() == 2,
        r is Eip7702 ==> spec_tx_type(r).spec_ty() == 4,
        r is Deposit ==> spec_tx_type(r).spec_ty() == 0x7E,
{
}

/// Law: a compact form with type `t` reads back as the receipt variant of
/// `t` (an AA type as an EIP-1559 receipt) carrying the stored status,
/// cumulative gas and logs, and a deposit's nonce and version as stored.
pub proof fn lemma_compact_reads_its_variant(f: CompactReceiptFields)
    ensures
        f.tx_type is Legacy <==> spec_from_compact(f) is Legacy,
        f.tx_type is Eip2930 <==> spec_from_compact(f) is Eip2930,
        (f.tx_type is Eip1559 || f.tx_type is Aa) <==> spec_from_compact(f) is Eip1559,
        f.tx_type is Eip7702 <==> spec_from_compact(f) is Eip7702,
        f.tx_type is Deposit <==> spec_from_compact(f) is Deposit,
        spec_inner(spec_from_compact(f)).status == f.success,
        spec_inner(spec_from_compact(f)).cumulative_gas_used == f.cumulative_gas_used,
        spec_inner(spec_from_compact(f)).logs == f.logs,
        spec_from_compact(f) matches BaseReceipt::Deposit(d) ==> d.deposit_nonce == f.deposit_nonce
            && d.deposit_receipt_version == f.deposit_receipt_version,
        !(f.tx_type is Aa) ==> spec_tx_type(spec_from_compact(f)) == f.tx_type,
{
}

} // verus!
