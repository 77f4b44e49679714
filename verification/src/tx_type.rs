//! Transaction types of the chain and their compact storage identifiers.
//!
//! In the compact (database) encoding a transaction type is an identifier
//! returned alongside the body: the three oldest types have their own
//! identifier; every other type uses the extended identifier and writes its
//! type byte in front of the body.
use vstd::prelude::*;

verus! {

/// Compact identifier of legacy transactions.
pub const COMPACT_IDENTIFIER_LEGACY: usize = 0;

/// Compact identifier of EIP-2930 transactions.
pub const COMPACT_IDENTIFIER_EIP2930: usize = 1;

/// Compact identifier of EIP-1559 transactions.
pub const COMPACT_IDENTIFIER_EIP1559: usize = 2;

/// Compact identifier telling that the type byte follows.
pub const COMPACT_EXTENDED_IDENTIFIER_FLAG: usize = 3;

/// Type id of EIP-7702 transactions.
pub const EIP7702_TX_TYPE_ID: u8 = 4;

/// Type id of deposit transactions.
pub const DEPOSIT_TX_TYPE_ID: u8 = 0x7E;

/// Type id of SCI account-abstraction transactions.
pub const SCI_AA_TX_TYPE_ID: u8 = 0x76;

/// The transaction types of the chain.
#[derive(Clone, Copy, Debug, PartialEq, Eq, Structural)]
pub enum OpTxType {
    Legacy,
    Eip2930,
    Eip1559,
    Eip7702,
    Deposit,
    Aa,
}

/// The compact identifier of a type.
pub open spec fn spec_identifier(t: OpTxType) -> usize {
    match t {
        OpTxType::Legacy => COMPACT_IDENTIFIER_LEGACY,
        OpTxType::Eip2930 => COMPACT_IDENTIFIER_EIP2930,
        OpTxType::Eip1559 => COMPACT_IDENTIFIER_EIP1559,
        _ => COMPACT_EXTENDED_IDENTIFIER_FLAG,
    }
}

/// The bytes a type writes in front of the body: its type byte for the
/// extended types, nothing for the others.
pub open spec fn spec_extension(t: OpTxType) -> Seq<u8> {
    match t {
        OpTxType::Eip7702 => seq![EIP7702_TX_TYPE_ID],
        OpTxType::Aa => seq![SCI_AA_TX_TYPE_ID],
        OpTxType::Deposit => seq![DEPOSIT_TX_TYPE_ID],
        _ => seq![],
    }
}

/// The type an identifier and the bytes after it denote, with the number of
/// bytes read; `None` for an unknown identifier or extended type byte (on
/// which the decoder panics).
pub open spec fn spec_from_compact(buf: Seq<u8>, identifier: usize) -> Option<(OpTxType, nat)> {
    if identifier == COMPACT_IDENTIFIER_LEGACY {
        Some((OpTxType::Legacy, 0))
    } else if identifier == COMPACT_IDENTIFIER_EIP2930 {
        Some((OpTxType::Eip2930, 0))
    } else if identifier == COMPACT_IDENTIFIER_EIP1559 {
        Some((OpTxType::Eip1559, 0))
    } else if identifier == COMPACT_EXTENDED_IDENTIFIER_FLAG && buf.len() >= 1 {
        if buf[0] == EIP7702_TX_TYPE_ID {
            Some((OpTxType::Eip7702, 1))
        } else if buf[0] == SCI_AA_TX_TYPE_ID {
            Some((OpTxType::Aa, 1))
        } else if buf[0] == DEPOSIT_TX_TYPE_ID {
            Some((OpTxType::Deposit, 1))
        } else {
            None
        }
    } else {
        None
    }
}

impl OpTxType {
    /// The type id of the transaction type.
    pub open spec fn spec_ty(self) -> u8 {
        match self {
            OpTxType::Legacy => 0,
            OpTxType::Eip2930 => 1,
            OpTxType::Eip1559 => 2,
            OpTxType::Eip7702 => EIP7702_TX_TYPE_ID,
            OpTxType::Deposit => DEPOSIT_TX_TYPE_ID,
            OpTxType::Aa => SCI_AA_TX_TYPE_ID,
        }
    }

    /// The type id of the transaction type.
    pub fn ty(&self) -> (r: u8)
        ensures
            r == self.spec_ty(),
            *self is Legacy ==> r == 0,
            *self is Eip2930 ==> r == 1,
            *self is Eip1559 ==> r == 2,
            *self is Eip7702 ==> r == 4,
            *self is Deposit ==> r == 0x7E,
            *self is Aa ==> r == 0x76,
    {
        match self {
            OpTxType::Legacy => 0,
            OpTxType::Eip2930 => 1,
            OpTxType::Eip1559 => 2,
            OpTxType::Eip7702 => EIP7702_TX_TYPE_ID,
            OpTxType::Deposit => DEPOSIT_TX_TYPE_ID,
            OpTxType::Aa => SCI_AA_TX_TYPE_ID,
        }
    }

    /// Writes the type's extension bytes to `buf` and returns its identifier.
    pub fn to_compact(&self, buf: &mut Vec<u8>) -> (r: usize)
        ensures
            r == spec_identifier(*self),
            final(buf)@ == old(buf)@ + spec_extension(*self),
            r < COMPACT_EXTENDED_IDENTIFIER_FLAG ==> r == self.spec_ty() && final(buf)@ == old(buf)@,
            r == COMPACT_EXTENDED_IDENTIFIER_FLAG ==> final(buf)@ == old(buf)@.push(self.spec_ty()),
            r <= COMPACT_EXTENDED_IDENTIFIER_FLAG,
            (r < COMPACT_EXTENDED_IDENTIFIER_FLAG) <==> self.spec_ty() < 3,
    {
        let ghost start = buf@;
        let r = match self {
            OpTxType::Legacy => COMPACT_IDENTIFIER_LEGACY,
            OpTxType::Eip2930 => COMPACT_IDENTIFIER_EIP2930,
            OpTxType::Eip1559 => COMPACT_IDENTIFIER_EIP1559,
            OpTxType::Eip7702 => {
                buf.push(EIP7702_TX_TYPE_ID);
                COMPACT_EXTENDED_IDENTIFIER_FLAG
            },
            OpTxType::Aa => {
                buf.push(SCI_AA_TX_TYPE_ID);
                COMPACT_EXTENDED_IDENTIFIER_FLAG
            },
            OpTxType::Deposit => {
                buf.push(DEPOSIT_TX_TYPE_ID);
                COMPACT_EXTENDED_IDENTIFIER_FLAG
            },
        };
        assert(buf@ =~= start + spec_extension(*self));
        r
    }

    /// Reads the type from its identifier and the bytes that follow, returning
    /// it with the number of bytes read.
    pub fn from_compact(buf: &[u8], identifier: usize) -> (r: (OpTxType, usize))
        requires
            spec_from_compact(buf@, identifier) is Some,
        ensures
            spec_from_compact(buf@, identifier) == Some((r.0, r.1 as nat)),
            identifier < COMPACT_EXTENDED_IDENTIFIER_FLAG ==> r.0.spec_ty() == identifier && r.1 == 0,
            identifier == COMPACT_EXTENDED_IDENTIFIER_FLAG ==> r.0.spec_ty() == buf@[0] && r.1 == 1,
    {
        if identifier == COMPACT_IDENTIFIER_LEGACY {
            (OpTxType::Legacy, 0)
        } else if identifier == COMPACT_IDENTIFIER_EIP2930 {
            (OpTxType::Eip2930, 0)
        } else if identifier == COMPACT_IDENTIFIER_EIP1559 {
            (OpTxType::Eip1559, 0)
        } else {
            let b = buf[0];
            if b == EIP7702_TX_TYPE_ID {
                (OpTxType::Eip7702, 1)
            } else if b == SCI_AA_TX_TYPE_ID {
                (OpTxType::Aa, 1)
            } else {
                (OpTxType::Deposit, 1)
            }
        }
    }

    /// The decoder's precondition as a check: whether `from_compact` accepts
    /// the identifier and bytes.
    pub fn is_known_compact(buf: &[u8], identifier: usize) -> (r: bool)
        ensures
            r == spec_from_compact(buf@, identifier) is Some,
    {
        if identifier <= COMPACT_IDENTIFIER_EIP1559 {
            true
        } else if identifier == COMPACT_EXTENDED_IDENTIFIER_FLAG && buf.len() >= 1 {
            buf[0] == EIP7702_TX_TYPE_ID || buf[0] == SCI_AA_TX_TYPE_ID || buf[0]
                == DEPOSIT_TX_TYPE_ID
        } else {
            false
        }
    }
}

/// Law: reading back what a type wrote, followed by anything, gives the type
/// and consumes exactly what it wrote.
pub proof fn lemma_compact_type_roundtrip(t: OpTxType, rest: Seq<u8>)
    ensures
        spec_from_compact(spec_extension(t) + rest, spec_identifier(t)) == Some(
            (t, spec_extension(t).len()),
        ),
{
    let b = spec_extension(t) + rest;
    match t {
        OpTxType::Eip7702 => assert(b[0] == EIP7702_TX_TYPE_ID),
        OpTxType::Aa => assert(b[0] == SCI_AA_TX_TYPE_ID),
        OpTxType::Deposit => assert(b[0] == DEPOSIT_TX_TYPE_ID),
        _ => {},
    }
}

/// Law: each transaction type's type byte is its EIP-2718 type id: legacy
/// 0, EIP-2930 1, EIP-1559 2, EIP-7702 4, deposit `0x7E`, SCI AA `0x76`;
/// and no two types share a byte.
pub proof fn lemma_type_bytes(t: OpTxType, u: OpTxType)
    ensures
        t is Legacy ==> t.spec_ty() == 0,
        t is Eip2930 ==> t.spec_ty() == 1,
        t is Eip1559 ==> t.spec_ty() == 2,
        t is Eip7702 ==> t.spec_ty() == 4,
        t is Deposit ==> t.spec_ty() == 0x7E,
        t is Aa ==> t.spec_ty() == 0x76,
        t.spec_ty() == u.spec_ty() ==> t == u,
{
}

/// Law: the compact identifier of a type whose type byte is below 3 is that
/// byte, and nothing is written in front of the body; every other type
/// uses the extended identifier and writes exactly its type byte.
pub proof fn lemma_compact_identifier_is_type_byte(t: OpTxType)
    ensures
        t.spec_ty() < 3 ==> spec_identifier(t) == t.spec_ty() && spec_extension(t).len() == 0,
        t.spec_ty() >= 3 ==> spec_identifier(t) == 3 && spec_extension(t) == seq![t.spec_ty()],
{
}

/// Law: reading a compact type gives back the type whose byte the input
/// names: an identifier below 3 is the type byte itself (nothing read), and
/// after the extended identifier the next byte is the type byte (one byte
/// read).
pub proof fn lemma_from_compact_reads_type_byte(buf: Seq<u8>, identifier: usize)
    ensures
        spec_from_compact(buf, identifier) matches Some((t, n)) ==> (if identifier < 3 {
            t.spec_ty() == identifier && n == 0
        } else {
            identifier == 3 && buf.len() >= 1 && t.spec_ty() == buf[0] && n == 1
        }),
        identifier < 3 ==> spec_from_compact(buf, identifier) is Some,
{
}

/// A deposit's mint as the compact encoding stores it: zero is omitted.
pub fn mint_to_compact(mint: u128) -> (r: Option<u128>)
    ensures
        r == (if mint == 0 {
            None
        } else {
            Some(mint)
        }),
{
    if mint == 0 {
        None
    } else {
        Some(mint)
    }
}

/// A deposit's mint read back from the compact encoding: an omitted mint is
/// zero.
pub fn mint_from_compact(mint: Option<u128>) -> (r: u128)
    ensures
        r == match mint {
            Some(m) => m,
            None => 0,
        },
{
    match mint {
        Some(m) => m,
        None => 0,
    }
}

/// Law: the compact mint encoding round-trips every mint.
pub proof fn lemma_mint_roundtrip(mint: u128)
    ensures
        (match (if mint == 0 {
            None
        } else {
            Some(mint)
        }) {
            Some(m) => m,
            None => 0u128,
        }) == mint,
{
}

} // verus!
