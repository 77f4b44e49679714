//! The RLP field encoding of the AA transaction: the nine fields in order
//! (chain id, nonce, the two fee caps, gas limit, the calls, the access list,
//! the fee payer and the root), an absent address written as the empty
//! string `0x80`. Decoding reads exactly what encoding writes.
use vstd::prelude::*;
use crate::aa::{AccessListItem, B256, BaseAaTransaction, BaseAaTransactionView, Call, access_list_view, calls_view};
use crate::abi::{be_bytes, be_bytes_u128, lemma_be_bytes_of_be_nat, lemma_be_nat_of_be_bytes, u256_word};
use crate::hook::{AaCall, TxKind};
use crate::primitives::{Address, U256, be_nat, lemma_be_nat_concat, lemma_pow256_add, lemma_pow256_values, pow256};
use crate::rlp::{
    lemma_header_first_byte, lemma_header_prefix_free, lemma_rlp_lens, lemma_string_prefix_free,
    lemma_uint_prefix_free, rlp_decode_bytes, rlp_decode_list, rlp_decode_u128, rlp_decode_u256,
    rlp_decode_u64, rlp_encode_bytes, rlp_encode_header, rlp_encode_u128, rlp_encode_u256,
    rlp_encode_u64, rlp_header, rlp_list, rlp_string, rlp_uint, starts_with,
};

verus! {

/// Why RLP decoding failed.
#[derive(Debug, PartialEq, Eq)]
pub enum RlpError {
    /// The RLP codec rejected the input.
    Codec(alloy_rlp::Error),
    /// The input ended where a value was expected.
    InputTooShort,
    /// A fixed-size value had another length.
    UnexpectedLength,
    /// A structure's fields did not fill its list payload exactly.
    ListLengthMismatch { expected: usize, got: usize },
}

impl View for B256 {
    type V = nat;

    open spec fn view(&self) -> nat {
        self.hi as nat * crate::primitives::two_pow_128() + self.lo as nat
    }
}

/// The 20 bytes of an address.
pub open spec fn address_seq(a: Address) -> Seq<u8> {
    be_bytes(a@, 20)
}

/// The encoding of an address: a 20-byte string.
pub open spec fn enc_address(a: Address) -> Seq<u8> {
    rlp_string(address_seq(a))
}

/// The encoding of a call target: the empty string for a creation.
pub open spec fn enc_kind(k: TxKind) -> Seq<u8> {
    match k {
        TxKind::Create => seq![0x80u8],
        TxKind::Call(a) => enc_address(a),
    }
}

/// The fields of a call: target, value and input.
pub open spec fn call_payload(c: (TxKind, U256, Seq<u8>)) -> Seq<u8> {
    enc_kind(c.0) + rlp_uint(c.1@) + rlp_string(c.2)
}

/// The encoding of a call: the list of its fields.
pub open spec fn enc_call(c: (TxKind, U256, Seq<u8>)) -> Seq<u8> {
    rlp_list(call_payload(c))
}

/// The calls' encodings, one after the other.
pub open spec fn enc_calls(s: Seq<(TxKind, U256, Seq<u8>)>) -> Seq<u8>
    decreases s.len(),
{
    if s.len() == 0 {
        Seq::empty()
    } else {
        enc_call(s[0]) + enc_calls(s.drop_first())
    }
}

/// The encoding of a storage key: a 32-byte string.
pub open spec fn enc_key(b: B256) -> Seq<u8> {
    rlp_string(be_bytes(b@, 32))
}

/// The keys' encodings, one after the other.
pub open spec fn enc_keys(s: Seq<B256>) -> Seq<u8>
    decreases s.len(),
{
    if s.len() == 0 {
        Seq::empty()
    } else {
        enc_key(s[0]) + enc_keys(s.drop_first())
    }
}

/// The fields of an access-list entry: the address and the list of keys.
pub open spec fn item_payload(i: (Address, Seq<B256>)) -> Seq<u8> {
    enc_address(i.0) + rlp_list(enc_keys(i.1))
}

/// The encoding of an access-list entry: the list of its fields.
pub open spec fn enc_item(i: (Address, Seq<B256>)) -> Seq<u8> {
    rlp_list(item_payload(i))
}

/// The entries' encodings, one after the other.
pub open spec fn enc_items(s: Seq<(Address, Seq<B256>)>) -> Seq<u8>
    decreases s.len(),
{
    if s.len() == 0 {
        Seq::empty()
    } else {
        enc_item(s[0]) + enc_items(s.drop_first())
    }
}

/// The encoding of an optional address: the empty string when absent.
pub open spec fn enc_opt_address(o: Option<Address>) -> Seq<u8> {
    match o {
        None => seq![0x80u8],
        Some(a) => enc_address(a),
    }
}

/// The encodings of the five integer fields: chain id, nonce, the two fee
/// caps and the gas limit.
pub open spec fn enc_head(chain_id: u64, nonce: u64, max_priority_fee: u128, max_fee: u128, gas_limit: u64) -> Seq<u8> {
    rlp_uint(chain_id as nat) + (rlp_uint(nonce as nat) + (rlp_uint(max_priority_fee as nat) + (
    rlp_uint(max_fee as nat) + rlp_uint(gas_limit as nat))))
}

/// The encodings of the remaining fields: the calls, the access list, the
/// fee payer and the root.
pub open spec fn enc_tail(
    calls: Seq<(TxKind, U256, Seq<u8>)>,
    access_list: Seq<(Address, Seq<B256>)>,
    fee_payer: Option<Address>,
    root: Option<Address>,
) -> Seq<u8> {
    rlp_list(enc_calls(calls)) + (rlp_list(enc_items(access_list)) + (enc_opt_address(fee_payer)
        + enc_opt_address(root)))
}

/// The RLP field encoding of an AA transaction: its nine fields in order.
pub open spec fn enc_fields(t: BaseAaTransactionView) -> Seq<u8> {
    enc_head(t.chain_id, t.nonce, t.max_priority_fee_per_gas, t.max_fee_per_gas, t.gas_limit)
        + enc_tail(t.calls, t.access_list, t.fee_payer, t.root)
}

/// Law: the field encoding of an AA transaction is the RLP of its nine
/// fields in the fixed wire order: chain id, nonce, max priority fee per
/// gas, max fee per gas, gas limit (each an RLP integer), then the list of
/// calls, the access list, the fee payer and the root.
pub proof fn lemma_fields_wire_order(t: BaseAaTransactionView)
    ensures
        enc_fields(t) == rlp_uint(t.chain_id as nat) + rlp_uint(t.nonce as nat) + rlp_uint(
            t.max_priority_fee_per_gas as nat,
        ) + rlp_uint(t.max_fee_per_gas as nat) + rlp_uint(t.gas_limit as nat) + rlp_list(
            enc_calls(t.calls),
        ) + rlp_list(enc_items(t.access_list)) + enc_opt_address(t.fee_payer) + enc_opt_address(
            t.root,
        ),
{
    assert(enc_fields(t) =~= rlp_uint(t.chain_id as nat) + rlp_uint(t.nonce as nat) + rlp_uint(
        t.max_priority_fee_per_gas as nat,
    ) + rlp_uint(t.max_fee_per_gas as nat) + rlp_uint(t.gas_limit as nat) + rlp_list(
        enc_calls(t.calls),
    ) + rlp_list(enc_items(t.access_list)) + enc_opt_address(t.fee_payer) + enc_opt_address(
        t.root,
    ));
}

/// Law: the wire form of each part of an AA transaction. A call is the list
/// of its target (the 20 address bytes as a string, or the empty string
/// `0x80` for a creation), its value as an RLP integer and its input as a
/// string; an optional address is the 20 address bytes as a string, or the
/// empty string when absent; an access-list entry is the list of its 20
/// address bytes as a string and the list of its keys, each key 32 bytes as
/// a string. The calls and the entries follow one another in their order.
pub proof fn lemma_part_wire_forms(
    c: (TxKind, U256, Seq<u8>),
    o: Option<Address>,
    item: (Address, Seq<B256>),
    cs: Seq<(TxKind, U256, Seq<u8>)>,
    items: Seq<(Address, Seq<B256>)>,
    keys: Seq<B256>,
)
    ensures
        enc_call(c) == rlp_list(
            (match c.0 {
                TxKind::Create => seq![0x80u8],
                TxKind::Call(a) => rlp_string(be_bytes(a@, 20)),
            }) + rlp_uint(c.1@) + rlp_string(c.2),
        ),
        enc_opt_address(o) == (match o {
            None => seq![0x80u8],
            Some(a) => rlp_string(be_bytes(a@, 20)),
        }),
        enc_item(item) == rlp_list(rlp_string(be_bytes(item.0@, 20)) + rlp_list(enc_keys(item.1))),
        cs.len() > 0 ==> enc_calls(cs) == enc_call(cs[0]) + enc_calls(cs.drop_first()),
        cs.len() == 0 ==> enc_calls(cs).len() == 0,
        items.len() > 0 ==> enc_items(items) == enc_item(items[0]) + enc_items(items.drop_first()),
        items.len() == 0 ==> enc_items(items).len() == 0,
        keys.len() > 0 ==> enc_keys(keys) == rlp_string(be_bytes(keys[0]@, 32)) + enc_keys(
            keys.drop_first(),
        ),
        keys.len() == 0 ==> enc_keys(keys).len() == 0,
{
}

// ---------------------------------------------------------------------------
// Sequence facts
// ---------------------------------------------------------------------------

proof fn lemma_sw_concat(x: Seq<u8>, a: Seq<u8>, b: Seq<u8>)
    requires
        starts_with(x, a + b),
    ensures
        starts_with(x, a),
        starts_with(x.skip(a.len() as int), b),
{
    assert(x.subrange(0, a.len() as int) =~= (a + b).subrange(0, a.len() as int));
    assert((a + b).subrange(0, a.len() as int) =~= a);
    assert(x.skip(a.len() as int).subrange(0, b.len() as int) =~= (a + b).subrange(
        a.len() as int,
        (a.len() + b.len()) as int,
    ));
    assert((a + b).subrange(a.len() as int, (a.len() + b.len()) as int) =~= b);
}

proof fn lemma_sw_self(a: Seq<u8>, b: Seq<u8>)
    ensures
        starts_with(a + b, a),
        (a + b).skip(a.len() as int) == b,
{
    assert((a + b).subrange(0, a.len() as int) =~= a);
    assert((a + b).skip(a.len() as int) =~= b);
}

proof fn lemma_skip_skip(x: Seq<u8>, a: int, b: int)
    requires
        0 <= a,
        0 <= b,
        a + b <= x.len(),
    ensures
        x.skip(a).skip(b) == x.skip(a + b),
{
    assert(x.skip(a).skip(b) =~= x.skip(a + b));
}

/// Lengths of byte strings in memory stay below `2^64`.
proof fn lemma_len_bound(n: nat)
    requires
        n <= usize::MAX,
    ensures
        n < pow256(8),
{
    lemma_pow256_values();
    lemma_pow256_add(4, 4);
}

// ---------------------------------------------------------------------------
// Addresses, keys and words as bytes
// ---------------------------------------------------------------------------

proof fn lemma_address_bound(a: Address)
    ensures
        a@ < pow256(20),
{
    lemma_pow256_values();
    let c = crate::primitives::two_pow_128();
    assert((a.hi as nat) * c + (a.lo as nat) < 0x1_0000_0000 * c) by (nonlinear_arith)
        requires
            a.hi < 0x1_0000_0000,
            a.lo < c,
            c > 0,
    ;
}

/// The 20 bytes of an address.
fn address_bytes(a: &Address) -> (r: Vec<u8>)
    ensures
        r@ == address_seq(*a),
{
    let mut r = be_bytes_u128(a.hi as u128, 4);
    let lo = be_bytes_u128(a.lo, 16);
    let ghost s0 = r@;
    r.extend_from_slice(lo.as_slice());
    proof {
        lemma_pow256_values();
        lemma_be_nat_of_be_bytes(a.hi as nat, 4);
        lemma_be_nat_of_be_bytes(a.lo as nat, 16);
        assert(r@ =~= s0 + lo@);
        lemma_be_nat_concat(s0, lo@);
        lemma_be_bytes_of_be_nat(r@);
    }
    r
}

/// The address whose 20 bytes `bytes` are.
fn address_from_bytes(bytes: &[u8]) -> (r: Address)
    requires
        bytes@.len() == 20,
    ensures
        address_seq(r) == bytes@,
        forall|a: Address| address_seq(a) == bytes@ ==> r == a,
{
    let r = Address::from_be_slice(bytes, 0);
    proof {
        assert(bytes@.subrange(0, 20) =~= bytes@);
        lemma_be_bytes_of_be_nat(bytes@);
        assert forall|a: Address| address_seq(a) == bytes@ implies r == a by {
            lemma_address_bound(a);
            lemma_be_nat_of_be_bytes(a@, 20);
            r.lemma_view_injective(a);
        }
    }
    r
}

/// The 32 bytes of a storage key.
fn b256_bytes(b: &B256) -> (r: Vec<u8>)
    ensures
        r@ == be_bytes(b@, 32),
{
    u256_word(&U256 { hi: b.hi, lo: b.lo })
}

/// The storage key whose 32 bytes `bytes` are.
fn b256_from_bytes(bytes: &[u8]) -> (r: B256)
    requires
        bytes@.len() == 32,
    ensures
        be_bytes(r@, 32) == bytes@,
        forall|b: B256| be_bytes(b@, 32) == bytes@ ==> r == b,
{
    let u = U256::from_be_slice(bytes, 0);
    let r = B256 { hi: u.hi, lo: u.lo };
    proof {
        assert(bytes@.subrange(0, 32) =~= bytes@);
        lemma_be_bytes_of_be_nat(bytes@);
        assert forall|b: B256| be_bytes(b@, 32) == bytes@ implies r == b by {
            let ub = U256 { hi: b.hi, lo: b.lo };
            ub.lemma_bounded();
            lemma_pow256_values();
            lemma_be_nat_of_be_bytes(b@, 32);
            u.lemma_view_injective(ub);
        }
    }
    r
}

// ---------------------------------------------------------------------------
// Addresses and call targets
// ---------------------------------------------------------------------------

/// Writes an address.
fn encode_address(a: &Address, out: &mut Vec<u8>)
    ensures
        final(out)@ == old(out)@ + enc_address(*a),
{
    let b = address_bytes(a);
    rlp_encode_bytes(b.as_slice(), out);
}

/// Reads an address: a string that must hold exactly 20 bytes.
pub fn decode_address(buf: &[u8]) -> (r: Result<(Address, &[u8]), RlpError>)
    ensures
        r matches Ok((a, rest)) ==> buf@ == enc_address(a) + rest@,
        forall|a: Address|
            #[trigger] starts_with(buf@, enc_address(a)) ==> (r matches Ok((b, rest)) && b == a
                && rest@ == buf@.skip(enc_address(a).len() as int)),
{
    match rlp_decode_bytes(buf) {
        Err(e) => {
            proof {
                assert forall|a: Address| !starts_with(buf@, #[trigger] enc_address(a)) by {
                    assert(!starts_with(buf@, rlp_string(address_seq(a))));
                }
            }
            Err(RlpError::Codec(e))
        },
        Ok((s, rest)) => {
            let slen = s.len();
            proof {
                lemma_sw_self(rlp_string(s@), rest@);
                lemma_len_bound(slen as nat);
                assert forall|a: Address| #[trigger] starts_with(buf@, enc_address(a)) implies s@
                    == address_seq(a) && address_seq(a).len() == 20 by {
                    lemma_be_bytes_len_20(a);
                    lemma_string_prefix_free(s@, address_seq(a), buf@);
                }
            }
            if slen != 20 {
                return Err(RlpError::UnexpectedLength);
            }
            let a = address_from_bytes(s.as_slice());
            Ok((a, rest))
        },
    }
}

proof fn lemma_be_bytes_len_20(a: Address)
    ensures
        address_seq(a).len() == 20,
        address_seq(a).len() < pow256(8),
{
    crate::abi::lemma_be_bytes_len(a@, 20);
    lemma_len_bound(20);
}

/// Writes a call target.
fn encode_kind(k: &TxKind, out: &mut Vec<u8>)
    ensures
        final(out)@ == old(out)@ + enc_kind(*k),
{
    match k {
        TxKind::Create => {
            let ghost o = out@;
            out.push(0x80);
            assert(out@ =~= o + seq![0x80u8]);
        },
        TxKind::Call(a) => encode_address(a, out),
    }
}

/// The first byte of an address's encoding is its string header `0x94`.
proof fn lemma_enc_address_first(a: Address)
    ensures
        enc_address(a).len() == 21,
        enc_address(a)[0] == 0x94,
{
    lemma_be_bytes_len_20(a);
}

/// Reads a call target: the empty string for a creation, an address
/// otherwise.
pub fn decode_kind(buf: &[u8]) -> (r: Result<(TxKind, &[u8]), RlpError>)
    ensures
        r matches Ok((k, rest)) ==> buf@ == enc_kind(k) + rest@,
        forall|k: TxKind|
            #[trigger] starts_with(buf@, enc_kind(k)) ==> (r matches Ok((j, rest)) && j == k
                && rest@ == buf@.skip(enc_kind(k).len() as int)),
{
    if buf.len() == 0 {
        proof {
            assert forall|k: TxKind| !starts_with(buf@, #[trigger] enc_kind(k)) by {
                if let TxKind::Call(a) = k {
                    lemma_enc_address_first(a);
                }
            }
        }
        return Err(RlpError::InputTooShort);
    }
    if buf[0] == 0x80 {
        let rest = vstd::slice::slice_subrange(buf, 1, buf.len());
        proof {
            assert(buf@ =~= seq![0x80u8] + rest@);
            assert forall|k: TxKind| #[trigger] starts_with(buf@, enc_kind(k)) implies k
                == TxKind::Create by {
                if let TxKind::Call(a) = k {
                    lemma_enc_address_first(a);
                    assert(enc_kind(k)[0] == buf@[0]);
                }
            }
            assert(rest@ =~= buf@.skip(1));
        }
        return Ok((TxKind::Create, rest));
    }
    match decode_address(buf) {
        Ok((a, rest)) => {
            proof {
                assert forall|k: TxKind| #[trigger] starts_with(buf@, enc_kind(k)) implies k
                    == TxKind::Call(a) by {
                    if let TxKind::Call(b) = k {
                        assert(starts_with(buf@, enc_address(b)));
                    } else {
                        assert(enc_kind(k)[0] == buf@[0]);
                    }
                }
            }
            Ok((TxKind::Call(a), rest))
        },
        Err(e) => {
            proof {
                assert forall|k: TxKind| !starts_with(buf@, #[trigger] enc_kind(k)) by {
                    if let TxKind::Call(b) = k {
                        assert(!starts_with(buf@, enc_address(b)));
                    } else {
                        if starts_with(buf@, enc_kind(k)) {
                            assert(enc_kind(k)[0] == buf@[0]);
                        }
                    }
                }
            }
            Err(e)
        },
    }
}


// ---------------------------------------------------------------------------
// Calls
// ---------------------------------------------------------------------------

proof fn lemma_enc_calls_push(s: Seq<(TxKind, U256, Seq<u8>)>, c: (TxKind, U256, Seq<u8>))
    ensures
        enc_calls(s.push(c)) == enc_calls(s) + enc_call(c),
    decreases s.len(),
{
    if s.len() == 0 {
        assert(s.push(c).drop_first() =~= s);
        assert(enc_calls(s.push(c)) =~= enc_calls(s) + enc_call(c));
    } else {
        assert(s.push(c).drop_first() =~= s.drop_first().push(c));
        lemma_enc_calls_push(s.drop_first(), c);
        assert(enc_calls(s.push(c)) =~= enc_calls(s) + enc_call(c));
    }
}

proof fn lemma_enc_calls_skip(t: Seq<(TxKind, U256, Seq<u8>)>, k: int)
    requires
        0 <= k <= t.len(),
    ensures
        k < t.len() ==> enc_calls(t.skip(k)) == enc_call(t[k]) + enc_calls(t.skip(k + 1)),
        k == t.len() ==> enc_calls(t.skip(k)).len() == 0,
        k < t.len() ==> enc_calls(t.skip(k)).len() > 0,
{
    if k < t.len() {
        assert(t.skip(k).drop_first() =~= t.skip(k + 1));
        lemma_rlp_lens(0, true, call_payload(t[k]).len());
    } else {
        assert(t.skip(k) =~= Seq::<(TxKind, U256, Seq<u8>)>::empty());
    }
}

proof fn lemma_u256_bytes(v: U256)
    ensures
        be_nat(be_bytes(v@, 32)) == v@,
        be_bytes(v@, 32).len() == 32,
        v@ < pow256(32),
{
    v.lemma_bounded();
    lemma_pow256_values();
    lemma_be_nat_of_be_bytes(v@, 32);
}

/// Reads a list header and returns the bytes after it (its payload and
/// what follows), with the payload's length.
fn decode_list_start(buf: &[u8]) -> (r: Result<(&[u8], usize), RlpError>)
    ensures
        r matches Ok((after, plen)) ==> plen <= after@.len() && buf@ == rlp_header(true, plen as nat)
            + after@,
        forall|p: Seq<u8>|
            #[trigger] starts_with(buf@, rlp_list(p)) ==> (r matches Ok((after, plen)) && plen
                == p.len() && starts_with(after@, p) && after@ == buf@.skip(
                rlp_header(true, p.len()).len() as int,
            )),
{
    match rlp_decode_list(buf) {
        Err(e) => {
            proof {
                assert forall|p: Seq<u8>| !starts_with(buf@, #[trigger] rlp_list(p)) by {
                    if starts_with(buf@, rlp_list(p)) {
                        lemma_sw_concat(buf@, rlp_header(true, p.len()), p);
                    }
                }
            }
            Err(RlpError::Codec(e))
        },
        Ok((payload, rest)) => {
            let plen = payload.len();
            let ghost h = rlp_header(true, plen as nat);
            proof {
                assert(buf@.len() == h.len() + plen + rest@.len());
            }
            let hlen = buf.len() - rest.len() - plen;
            let after = vstd::slice::slice_subrange(buf, hlen, buf.len());
            proof {
                assert(buf@ =~= h + (payload@ + rest@));
                assert(after@ =~= payload@ + rest@);
                assert(buf@ =~= h + after@);
                assert forall|p: Seq<u8>| #[trigger] starts_with(buf@, rlp_list(p)) implies plen
                    == p.len() && starts_with(after@, p) && after@ == buf@.skip(
                    rlp_header(true, p.len()).len() as int,
                ) by {
                    lemma_sw_concat(buf@, rlp_header(true, p.len()), p);
                    lemma_len_bound(plen as nat);
                    lemma_len_bound(p.len());
                    lemma_sw_self(h, after@);
                    lemma_header_prefix_free(true, plen as nat, p.len(), buf@);
                }
            }
            Ok((after, plen))
        },
    }
}

impl AaCall {
    /// Writes a call: the list of its target, value and input.
    pub fn encode(&self, out: &mut Vec<u8>)
        ensures
            final(out)@ == old(out)@ + enc_call(self@),
    {
        let mut payload: Vec<u8> = Vec::new();
        encode_kind(&self.to, &mut payload);
        let w = u256_word(&self.value);
        proof {
            lemma_u256_bytes(self.value);
        }
        rlp_encode_u256(w.as_slice(), &mut payload);
        rlp_encode_bytes(self.input.as_slice(), &mut payload);
        assert(payload@ =~= call_payload(self@));
        let ghost o = out@;
        rlp_encode_header(true, payload.len(), out);
        out.extend_from_slice(payload.as_slice());
        assert(out@ =~= o + enc_call(self@));
    }

    /// Reads a call: a list of its target, value and input that its fields
    /// fill exactly.
    #[verifier::rlimit(40)]
    #[verifier::spinoff_prover]
    pub fn decode(buf: &[u8]) -> (r: Result<(AaCall, &[u8]), RlpError>)
        ensures
            r matches Ok((c, rest)) ==> buf@ == enc_call(c@) + rest@,
            forall|c: (TxKind, U256, Seq<u8>)|
                #[trigger] starts_with(buf@, enc_call(c)) ==> (r matches Ok((d, rest)) && d@ == c
                    && rest@ == buf@.skip(enc_call(c).len() as int)),
    {
        let (after, plen) = match decode_list_start(buf) {
            Ok(x) => x,
            Err(e) => {
                return Err(e);
            },
        };
        let ghost h = rlp_header(true, plen as nat);
        // Every call whose encoding begins `buf` has its fields begin `after`.
        proof {
            assert forall|c: (TxKind, U256, Seq<u8>)| #[trigger] starts_with(buf@, enc_call(c)) implies plen
                == call_payload(c).len() && starts_with(after@, call_payload(c)) by {
                assert(starts_with(buf@, rlp_list(call_payload(c))));
            }
        }
        let (to, r1) = match decode_kind(after) {
            Ok(x) => x,
            Err(e) => {
                proof {
                    assert forall|c: (TxKind, U256, Seq<u8>)| !starts_with(buf@, #[trigger] enc_call(c)) by {
                        if starts_with(buf@, enc_call(c)) {
                            lemma_sw_concat(after@, enc_kind(c.0), rlp_uint(c.1@) + rlp_string(c.2));
                        }
                    }
                }
                return Err(e);
            },
        };
        proof {
            assert forall|c: (TxKind, U256, Seq<u8>)| #[trigger] starts_with(buf@, enc_call(c)) implies to
                == c.0 && starts_with(r1@, rlp_uint(c.1@) + rlp_string(c.2)) by {
                lemma_sw_concat(after@, enc_kind(c.0), rlp_uint(c.1@) + rlp_string(c.2));
            }
        }
        let (w, r2) = match rlp_decode_u256(r1) {
            Ok(x) => x,
            Err(e) => {
                proof {
                    assert forall|c: (TxKind, U256, Seq<u8>)| !starts_with(buf@, #[trigger] enc_call(c)) by {
                        if starts_with(buf@, enc_call(c)) {
                            lemma_sw_concat(r1@, rlp_uint(c.1@), rlp_string(c.2));
                            lemma_u256_bytes(c.1);
                        }
                    }
                }
                return Err(RlpError::Codec(e));
            },
        };
        let value = U256::from_be_slice(&w, 0);
        proof {
            assert(w@.subrange(0, 32) =~= w@);
            crate::primitives::lemma_be_nat_bound(w@);
            lemma_pow256_values();
            assert forall|c: (TxKind, U256, Seq<u8>)| #[trigger] starts_with(buf@, enc_call(c)) implies value
                == c.1 && starts_with(r2@, rlp_string(c.2)) by {
                lemma_sw_concat(r1@, rlp_uint(c.1@), rlp_string(c.2));
                lemma_u256_bytes(c.1);
                lemma_sw_self(rlp_uint(be_nat(w@)), r2@);
                lemma_uint_prefix_free(be_nat(w@), c.1@, r1@);
                value.lemma_view_injective(c.1);
                assert(r2@ == r1@.skip(rlp_uint(c.1@).len() as int));
            }
        }
        let (input, r3) = match rlp_decode_bytes(r2) {
            Ok(x) => x,
            Err(e) => {
                proof {
                    assert forall|c: (TxKind, U256, Seq<u8>)| !starts_with(buf@, #[trigger] enc_call(c)) by {
                        if starts_with(buf@, enc_call(c)) {
                            assert(!starts_with(r2@, rlp_string(c.2)));
                        }
                    }
                }
                return Err(RlpError::Codec(e));
            },
        };
        let ghost fields = enc_kind(to) + rlp_uint(value@) + rlp_string(input@);
        let r2len = r2.len();
        proof {
            assert(after@ =~= fields + r3@);
            lemma_len_bound(r2len as nat);
            assert forall|c: (TxKind, U256, Seq<u8>)| #[trigger] starts_with(buf@, enc_call(c)) implies input@
                == c.2 by {
                lemma_sw_self(rlp_string(input@), r3@);
                lemma_string_prefix_free(input@, c.2, r2@);
            }
        }
        let consumed = after.len() - r3.len();
        if consumed != plen {
            proof {
                assert forall|c: (TxKind, U256, Seq<u8>)| !starts_with(buf@, #[trigger] enc_call(c)) by {
                    if starts_with(buf@, enc_call(c)) {
                        assert(fields == call_payload(c));
                    }
                }
            }
            return Err(RlpError::ListLengthMismatch { expected: plen, got: consumed });
        }
        let call = AaCall { to, value, input };
        proof {
            assert(fields == call_payload(call@));
            assert(after@.subrange(0, plen as int) =~= fields);
            assert(buf@ =~= enc_call(call@) + r3@);
            assert forall|c: (TxKind, U256, Seq<u8>)| #[trigger] starts_with(buf@, enc_call(c)) implies call@
                == c && r3@ == buf@.skip(enc_call(c).len() as int) by {
                assert(call@ == c);
                lemma_sw_self(enc_call(call@), r3@);
            }
        }
        Ok((call, r3))
    }
}

/// A list whose header and payload begin `buf`, where `buf` is known to
/// be a list header, a payload and the rest, has that payload.
proof fn lemma_list_payload(buf: Seq<u8>, payload: Seq<u8>, rest: Seq<u8>, p: Seq<u8>)
    requires
        buf == rlp_header(true, payload.len()) + payload + rest,
        starts_with(buf, rlp_list(p)),
        buf.len() <= usize::MAX,
    ensures
        payload == p,
        rest == buf.skip(rlp_list(p).len() as int),
{
    let h = rlp_header(true, payload.len());
    lemma_sw_concat(buf, rlp_header(true, p.len()), p);
    lemma_len_bound(payload.len());
    lemma_len_bound(p.len());
    lemma_sw_self(h, payload + rest);
    assert(buf =~= h + (payload + rest));
    lemma_header_prefix_free(true, payload.len(), p.len(), buf);
    lemma_sw_self(payload, rest);
    lemma_skip_skip(buf, h.len() as int, payload.len() as int);
}

/// Writes the list of calls.
pub fn encode_calls(calls: &Vec<Call>, out: &mut Vec<u8>)
    ensures
        final(out)@ == old(out)@ + rlp_list(enc_calls(calls_view(calls@))),
{
    let mut payload: Vec<u8> = Vec::new();
    let mut i: usize = 0;
    while i < calls.len()
        invariant
            i <= calls@.len(),
            payload@ == enc_calls(calls_view(calls@.take(i as int))),
        decreases calls@.len() - i,
    {
        calls[i].encode(&mut payload);
        proof {
            assert(calls_view(calls@.take(i + 1)) =~= calls_view(calls@.take(i as int)).push(
                calls@[i as int]@,
            ));
            lemma_enc_calls_push(calls_view(calls@.take(i as int)), calls@[i as int]@);
        }
        i = i + 1;
    }
    assert(calls@.take(calls@.len() as int) =~= calls@);
    let ghost o = out@;
    rlp_encode_header(true, payload.len(), out);
    out.extend_from_slice(payload.as_slice());
    assert(out@ =~= o + rlp_list(enc_calls(calls_view(calls@))));
}

/// Reads the list of calls: a list whose payload is the calls one after the
/// other.
pub fn decode_calls(buf: &[u8]) -> (r: Result<(Vec<Call>, &[u8]), RlpError>)
    ensures
        r matches Ok((cs, rest)) ==> buf@ == rlp_list(enc_calls(calls_view(cs@))) + rest@,
        forall|t: Seq<(TxKind, U256, Seq<u8>)>|
            #[trigger] starts_with(buf@, rlp_list(enc_calls(t))) ==> (r matches Ok((cs, rest))
                && calls_view(cs@) == t && rest@ == buf@.skip(rlp_list(enc_calls(t)).len() as int)),
{
    let (payload, rest) = match rlp_decode_list(buf) {
        Ok(x) => x,
        Err(e) => {
            proof {
                assert forall|t: Seq<(TxKind, U256, Seq<u8>)>| !starts_with(
                    buf@,
                    #[trigger] rlp_list(enc_calls(t)),
                ) by {
                    if starts_with(buf@, rlp_list(enc_calls(t))) {
                        lemma_sw_concat(buf@, rlp_header(true, enc_calls(t).len()), enc_calls(t));
                    }
                }
            }
            return Err(RlpError::Codec(e));
        },
    };
    let blen = buf.len();
    proof {
        assert forall|t: Seq<(TxKind, U256, Seq<u8>)>| #[trigger] starts_with(buf@, rlp_list(enc_calls(t))) implies payload@
            == enc_calls(t) && rest@ == buf@.skip(rlp_list(enc_calls(t)).len() as int) by {
            lemma_list_payload(buf@, payload@, rest@, enc_calls(t));
        }
    }
    let mut out: Vec<Call> = Vec::new();
    let mut cur: &[u8] = payload;
    assert(payload@ =~= enc_calls(calls_view(out@)) + cur@);
    proof {
        assert forall|t: Seq<(TxKind, U256, Seq<u8>)>| payload@ == #[trigger] enc_calls(t) implies out@.len()
            <= t.len() && calls_view(out@) =~= t.take(out@.len() as int) && cur@ == enc_calls(
            t.skip(out@.len() as int),
        ) by {
            assert(t.skip(0) =~= t);
        }
    }
    while cur.len() > 0
        invariant
            payload@ == enc_calls(calls_view(out@)) + cur@,
            forall|t: Seq<(TxKind, U256, Seq<u8>)>| #[trigger]
                starts_with(buf@, rlp_list(enc_calls(t))) ==> payload@ == enc_calls(t),
            forall|t: Seq<(TxKind, U256, Seq<u8>)>|
                payload@ == #[trigger] enc_calls(t) ==> out@.len() <= t.len() && calls_view(out@)
                    == t.take(out@.len() as int) && cur@ == enc_calls(t.skip(out@.len() as int)),
        decreases cur@.len(),
    {
        match AaCall::decode(cur) {
            Ok((c, r2)) => {
                let ghost k: int = out@.len() as int;
                proof {
                    lemma_rlp_lens(0, true, call_payload(c@).len());
                    lemma_enc_calls_push(calls_view(out@), c@);
                    assert(calls_view(out@.push(c)) =~= calls_view(out@).push(c@));
                    assert forall|t: Seq<(TxKind, U256, Seq<u8>)>| payload@ == #[trigger] enc_calls(t) implies k
                        + 1 <= t.len() && calls_view(out@.push(c)) == t.take(k + 1) && r2@
                        == enc_calls(t.skip(k + 1)) by {
                        lemma_enc_calls_skip(t, k);
                        assert(k < t.len());
                        lemma_sw_self(enc_call(t[k]), enc_calls(t.skip(k + 1)));
                        assert(starts_with(cur@, enc_call(t[k])));
                        assert(t.take(k + 1) =~= t.take(k).push(t[k]));
                    }
                }
                out.push(c);
                cur = r2;
                proof {
                    assert(payload@ =~= enc_calls(calls_view(out@)) + cur@);
                }
            },
            Err(e) => {
                proof {
                    assert forall|t: Seq<(TxKind, U256, Seq<u8>)>| !starts_with(
                        buf@,
                        #[trigger] rlp_list(enc_calls(t)),
                    ) by {
                        if starts_with(buf@, rlp_list(enc_calls(t))) {
                            let k = out@.len() as int;
                            lemma_enc_calls_skip(t, k);
                            lemma_sw_self(enc_call(t[k]), enc_calls(t.skip(k + 1)));
                            assert(starts_with(cur@, enc_call(t[k])));
                        }
                    }
                }
                return Err(e);
            },
        }
    }
    proof {
        assert(payload@ =~= enc_calls(calls_view(out@)));
        assert(buf@ =~= rlp_list(enc_calls(calls_view(out@))) + rest@);
        assert forall|t: Seq<(TxKind, U256, Seq<u8>)>| #[trigger] starts_with(buf@, rlp_list(enc_calls(t))) implies calls_view(out@)
            == t by {
            lemma_enc_calls_skip(t, out@.len() as int);
            if out@.len() < t.len() {
                assert(cur@.len() > 0);
            }
            assert(t.take(t.len() as int) =~= t);
        }
    }
    Ok((out, rest))
}


// ---------------------------------------------------------------------------
// Storage keys
// ---------------------------------------------------------------------------

/// Writes a storage key.
pub fn encode_key(b: &B256, out: &mut Vec<u8>)
    ensures
        final(out)@ == old(out)@ + enc_key(*b),
{
    let bytes = b256_bytes(b);
    rlp_encode_bytes(bytes.as_slice(), out);
}

/// Reads a storage key: a string that must hold exactly 32 bytes.
pub fn decode_key(buf: &[u8]) -> (r: Result<(B256, &[u8]), RlpError>)
    ensures
        r matches Ok((b, rest)) ==> buf@ == enc_key(b) + rest@,
        forall|b: B256|
            #[trigger] starts_with(buf@, enc_key(b)) ==> (r matches Ok((c, rest)) && c == b
                && rest@ == buf@.skip(enc_key(b).len() as int)),
{
    match rlp_decode_bytes(buf) {
        Err(e) => {
            proof {
                assert forall|b: B256| !starts_with(buf@, #[trigger] enc_key(b)) by {
                    assert(!starts_with(buf@, rlp_string(be_bytes(b@, 32))));
                }
            }
            Err(RlpError::Codec(e))
        },
        Ok((s, rest)) => {
            let slen = s.len();
            proof {
                lemma_sw_self(rlp_string(s@), rest@);
                lemma_len_bound(slen as nat);
                assert forall|b: B256| #[trigger] starts_with(buf@, enc_key(b)) implies s@ == be_bytes(
                    b@,
                    32,
                ) && be_bytes(b@, 32).len() == 32 by {
                    crate::abi::lemma_be_bytes_len(b@, 32);
                    lemma_len_bound(32);
                    lemma_string_prefix_free(s@, be_bytes(b@, 32), buf@);
                }
            }
            if slen != 32 {
                return Err(RlpError::UnexpectedLength);
            }
            let b = b256_from_bytes(s.as_slice());
            Ok((b, rest))
        },
    }
}
proof fn lemma_enc_keys_push(s: Seq<B256>, c: B256)
    ensures
        enc_keys(s.push(c)) == enc_keys(s) + enc_key(c),
    decreases s.len(),
{
    if s.len() == 0 {
        assert(s.push(c).drop_first() =~= s);
        assert(enc_keys(s.push(c)) =~= enc_keys(s) + enc_key(c));
    } else {
        assert(s.push(c).drop_first() =~= s.drop_first().push(c));
        lemma_enc_keys_push(s.drop_first(), c);
        assert(enc_keys(s.push(c)) =~= enc_keys(s) + enc_key(c));
    }
}

proof fn lemma_enc_keys_skip(t: Seq<B256>, k: int)
    requires
        0 <= k <= t.len(),
    ensures
        k < t.len() ==> enc_keys(t.skip(k)) == enc_key(t[k]) + enc_keys(t.skip(k + 1)),
        k == t.len() ==> enc_keys(t.skip(k)).len() == 0,
        k < t.len() ==> enc_keys(t.skip(k)).len() > 0,
{
    if k < t.len() {
        assert(t.skip(k).drop_first() =~= t.skip(k + 1));
        lemma_rlp_lens(0, false, be_bytes(t[k]@, 32).len());
        crate::abi::lemma_be_bytes_len(t[k]@, 32);
    } else {
        assert(t.skip(k) =~= Seq::<B256>::empty());
    }
}

/// Writes the list of keys.
pub fn encode_keys(items: &Vec<B256>, out: &mut Vec<u8>)
    ensures
        final(out)@ == old(out)@ + rlp_list(enc_keys(items@)),
{
    let mut payload: Vec<u8> = Vec::new();
    let mut i: usize = 0;
    while i < items.len()
        invariant
            i <= items@.len(),
            payload@ == enc_keys(items@.take(i as int)),
        decreases items@.len() - i,
    {
        encode_key(&items[i], &mut payload);
        proof {
            assert(items@.take(i + 1) =~= items@.take(i as int).push(
                items@[i as int],
            ));
            lemma_enc_keys_push(items@.take(i as int), items@[i as int]);
        }
        i = i + 1;
    }
    assert(items@.take(items@.len() as int) =~= items@);
    let ghost o = out@;
    rlp_encode_header(true, payload.len(), out);
    out.extend_from_slice(payload.as_slice());
    assert(out@ =~= o + rlp_list(enc_keys(items@)));
}

/// Reads the list of keys: a list whose payload is the keys one after the
/// other.
pub fn decode_keys(buf: &[u8]) -> (r: Result<(Vec<B256>, &[u8]), RlpError>)
    ensures
        r matches Ok((cs, rest)) ==> buf@ == rlp_list(enc_keys(cs@)) + rest@,
        forall|t: Seq<B256>|
            #[trigger] starts_with(buf@, rlp_list(enc_keys(t))) ==> (r matches Ok((cs, rest))
                && cs@ == t && rest@ == buf@.skip(rlp_list(enc_keys(t)).len() as int)),
{
    let (payload, rest) = match rlp_decode_list(buf) {
        Ok(x) => x,
        Err(e) => {
            proof {
                assert forall|t: Seq<B256>| !starts_with(
                    buf@,
                    #[trigger] rlp_list(enc_keys(t)),
                ) by {
                    if starts_with(buf@, rlp_list(enc_keys(t))) {
                        lemma_sw_concat(buf@, rlp_header(true, enc_keys(t).len()), enc_keys(t));
                    }
                }
            }
            return Err(RlpError::Codec(e));
        },
    };
    let blen = buf.len();
    proof {
        assert forall|t: Seq<B256>| #[trigger] starts_with(buf@, rlp_list(enc_keys(t))) implies payload@
            == enc_keys(t) && rest@ == buf@.skip(rlp_list(enc_keys(t)).len() as int) by {
            lemma_list_payload(buf@, payload@, rest@, enc_keys(t));
        }
    }
    let mut out: Vec<B256> = Vec::new();
    let mut cur: &[u8] = payload;
    assert(payload@ =~= enc_keys(out@) + cur@);
    proof {
        assert forall|t: Seq<B256>| payload@ == #[trigger] enc_keys(t) implies out@.len()
            <= t.len() && out@ =~= t.take(out@.len() as int) && cur@ == enc_keys(
            t.skip(out@.len() as int),
        ) by {
            assert(t.skip(0) =~= t);
        }
    }
    while cur.len() > 0
        invariant
            payload@ == enc_keys(out@) + cur@,
            forall|t: Seq<B256>| #[trigger]
                starts_with(buf@, rlp_list(enc_keys(t))) ==> payload@ == enc_keys(t),
            forall|t: Seq<B256>|
                payload@ == #[trigger] enc_keys(t) ==> out@.len() <= t.len() && out@
                    == t.take(out@.len() as int) && cur@ == enc_keys(t.skip(out@.len() as int)),
        decreases cur@.len(),
    {
        match decode_key(cur) {
            Ok((c, r2)) => {
                let ghost k: int = out@.len() as int;
                proof {
                    lemma_rlp_lens(0, false, be_bytes(c@, 32).len());
                    crate::abi::lemma_be_bytes_len(c@, 32);
                    lemma_enc_keys_push(out@, c);
                    assert(out@.push(c) =~= out@.push(c));
                    assert forall|t: Seq<B256>| payload@ == #[trigger] enc_keys(t) implies k
                        + 1 <= t.len() && out@.push(c) == t.take(k + 1) && r2@
                        == enc_keys(t.skip(k + 1)) by {
                        lemma_enc_keys_skip(t, k);
                        assert(k < t.len());
                        lemma_sw_self(enc_key(t[k]), enc_keys(t.skip(k + 1)));
                        assert(starts_with(cur@, enc_key(t[k])));
                        assert(t.take(k + 1) =~= t.take(k).push(t[k]));
                    }
                }
                out.push(c);
                cur = r2;
                proof {
                    assert(payload@ =~= enc_keys(out@) + cur@);
                }
            },
            Err(e) => {
                proof {
                    assert forall|t: Seq<B256>| !starts_with(
                        buf@,
                        #[trigger] rlp_list(enc_keys(t)),
                    ) by {
                        if starts_with(buf@, rlp_list(enc_keys(t))) {
                            let k = out@.len() as int;
                            lemma_enc_keys_skip(t, k);
                            lemma_sw_self(enc_key(t[k]), enc_keys(t.skip(k + 1)));
                            assert(starts_with(cur@, enc_key(t[k])));
                        }
                    }
                }
                return Err(e);
            },
        }
    }
    proof {
        assert(payload@ =~= enc_keys(out@));
        assert(buf@ =~= rlp_list(enc_keys(out@)) + rest@);
        assert forall|t: Seq<B256>| #[trigger] starts_with(buf@, rlp_list(enc_keys(t))) implies out@
            == t by {
            lemma_enc_keys_skip(t, out@.len() as int);
            if out@.len() < t.len() {
                assert(cur@.len() > 0);
            }
            assert(t.take(t.len() as int) =~= t);
        }
    }
    Ok((out, rest))
}


// ---------------------------------------------------------------------------
// Access-list entries
// ---------------------------------------------------------------------------

/// Writes an access-list entry: the list of its address and its keys.
pub fn encode_item(item: &AccessListItem, out: &mut Vec<u8>)
    ensures
        final(out)@ == old(out)@ + enc_item(item@),
{
    let mut payload: Vec<u8> = Vec::new();
    encode_address(&item.address, &mut payload);
    encode_keys(&item.storage_keys, &mut payload);
    assert(payload@ =~= item_payload(item@));
    let ghost o = out@;
    rlp_encode_header(true, payload.len(), out);
    out.extend_from_slice(payload.as_slice());
    assert(out@ =~= o + enc_item(item@));
}

/// Reads an access-list entry: a list of its address and its keys that its
/// fields fill exactly.
#[verifier::rlimit(40)]
#[verifier::spinoff_prover]
pub fn decode_item(buf: &[u8]) -> (r: Result<(AccessListItem, &[u8]), RlpError>)
    ensures
        r matches Ok((i, rest)) ==> buf@ == enc_item(i@) + rest@,
        forall|i: (Address, Seq<B256>)|
            #[trigger] starts_with(buf@, enc_item(i)) ==> (r matches Ok((j, rest)) && j@ == i
                && rest@ == buf@.skip(enc_item(i).len() as int)),
{
    let (after, plen) = match decode_list_start(buf) {
        Ok(x) => x,
        Err(e) => {
            return Err(e);
        },
    };
    proof {
        assert forall|i: (Address, Seq<B256>)| #[trigger] starts_with(buf@, enc_item(i)) implies plen
            == item_payload(i).len() && starts_with(after@, item_payload(i)) by {
            assert(starts_with(buf@, rlp_list(item_payload(i))));
        }
    }
    let (address, r1) = match decode_address(after) {
        Ok(x) => x,
        Err(e) => {
            proof {
                assert forall|i: (Address, Seq<B256>)| !starts_with(buf@, #[trigger] enc_item(i)) by {
                    if starts_with(buf@, enc_item(i)) {
                        lemma_sw_concat(after@, enc_address(i.0), rlp_list(enc_keys(i.1)));
                    }
                }
            }
            return Err(e);
        },
    };
    proof {
        assert forall|i: (Address, Seq<B256>)| #[trigger] starts_with(buf@, enc_item(i)) implies address
            == i.0 && starts_with(r1@, rlp_list(enc_keys(i.1))) by {
            lemma_sw_concat(after@, enc_address(i.0), rlp_list(enc_keys(i.1)));
        }
    }
    let (keys, r2) = match decode_keys(r1) {
        Ok(x) => x,
        Err(e) => {
            proof {
                assert forall|i: (Address, Seq<B256>)| !starts_with(buf@, #[trigger] enc_item(i)) by {
                    if starts_with(buf@, enc_item(i)) {
                        assert(!starts_with(r1@, rlp_list(enc_keys(i.1))));
                    }
                }
            }
            return Err(e);
        },
    };
    let ghost fields = enc_address(address) + rlp_list(enc_keys(keys@));
    proof {
        assert(after@ =~= fields + r2@);
    }
    let consumed = after.len() - r2.len();
    if consumed != plen {
        proof {
            assert forall|i: (Address, Seq<B256>)| !starts_with(buf@, #[trigger] enc_item(i)) by {
                if starts_with(buf@, enc_item(i)) {
                    assert(fields == item_payload(i));
                }
            }
        }
        return Err(RlpError::ListLengthMismatch { expected: plen, got: consumed });
    }
    let item = AccessListItem { address, storage_keys: keys };
    proof {
        assert(fields == item_payload(item@));
        assert(after@.subrange(0, plen as int) =~= fields);
        assert(buf@ =~= enc_item(item@) + r2@);
        assert forall|i: (Address, Seq<B256>)| #[trigger] starts_with(buf@, enc_item(i)) implies item@
            == i && r2@ == buf@.skip(enc_item(i).len() as int) by {
            assert(item@ == i);
            lemma_sw_self(enc_item(item@), r2@);
        }
    }
    Ok((item, r2))
}
proof fn lemma_enc_items_push(s: Seq<(Address, Seq<B256>)>, c: (Address, Seq<B256>))
    ensures
        enc_items(s.push(c)) == enc_items(s) + enc_item(c),
    decreases s.len(),
{
    if s.len() == 0 {
        assert(s.push(c).drop_first() =~= s);
        assert(enc_items(s.push(c)) =~= enc_items(s) + enc_item(c));
    } else {
        assert(s.push(c).drop_first() =~= s.drop_first().push(c));
        lemma_enc_items_push(s.drop_first(), c);
        assert(enc_items(s.push(c)) =~= enc_items(s) + enc_item(c));
    }
}

proof fn lemma_enc_items_skip(t: Seq<(Address, Seq<B256>)>, k: int)
    requires
        0 <= k <= t.len(),
    ensures
        k < t.len() ==> enc_items(t.skip(k)) == enc_item(t[k]) + enc_items(t.skip(k + 1)),
        k == t.len() ==> enc_items(t.skip(k)).len() == 0,
        k < t.len() ==> enc_items(t.skip(k)).len() > 0,
{
    if k < t.len() {
        assert(t.skip(k).drop_first() =~= t.skip(k + 1));
        lemma_rlp_lens(0, true, item_payload(t[k]).len());
    } else {
        assert(t.skip(k) =~= Seq::<(Address, Seq<B256>)>::empty());
    }
}

/// Writes the list of items.
pub fn encode_items(items: &Vec<AccessListItem>, out: &mut Vec<u8>)
    ensures
        final(out)@ == old(out)@ + rlp_list(enc_items(access_list_view(items@))),
{
    let mut payload: Vec<u8> = Vec::new();
    let mut i: usize = 0;
    while i < items.len()
        invariant
            i <= items@.len(),
            payload@ == enc_items(access_list_view(items@.take(i as int))),
        decreases items@.len() - i,
    {
        encode_item(&items[i], &mut payload);
        proof {
            assert(access_list_view(items@.take(i + 1)) =~= access_list_view(items@.take(i as int)).push(
                items@[i as int]@,
            ));
            lemma_enc_items_push(access_list_view(items@.take(i as int)), items@[i as int]@);
        }
        i = i + 1;
    }
    assert(items@.take(items@.len() as int) =~= items@);
    let ghost o = out@;
    rlp_encode_header(true, payload.len(), out);
    out.extend_from_slice(payload.as_slice());
    assert(out@ =~= o + rlp_list(enc_items(access_list_view(items@))));
}

/// Reads the list of items: a list whose payload is the items one after the
/// other.
pub fn decode_items(buf: &[u8]) -> (r: Result<(Vec<AccessListItem>, &[u8]), RlpError>)
    ensures
        r matches Ok((cs, rest)) ==> buf@ == rlp_list(enc_items(access_list_view(cs@))) + rest@,
        forall|t: Seq<(Address, Seq<B256>)>|
            #[trigger] starts_with(buf@, rlp_list(enc_items(t))) ==> (r matches Ok((cs, rest))
                && access_list_view(cs@) == t && rest@ == buf@.skip(rlp_list(enc_items(t)).len() as int)),
{
    let (payload, rest) = match rlp_decode_list(buf) {
        Ok(x) => x,
        Err(e) => {
            proof {
                assert forall|t: Seq<(Address, Seq<B256>)>| !starts_with(
                    buf@,
                    #[trigger] rlp_list(enc_items(t)),
                ) by {
                    if starts_with(buf@, rlp_list(enc_items(t))) {
                        lemma_sw_concat(buf@, rlp_header(true, enc_items(t).len()), enc_items(t));
                    }
                }
            }
            return Err(RlpError::Codec(e));
        },
    };
    let blen = buf.len();
    proof {
        assert forall|t: Seq<(Address, Seq<B256>)>| #[trigger] starts_with(buf@, rlp_list(enc_items(t))) implies payload@
            == enc_items(t) && rest@ == buf@.skip(rlp_list(enc_items(t)).len() as int) by {
            lemma_list_payload(buf@, payload@, rest@, enc_items(t));
        }
    }
    let mut out: Vec<AccessListItem> = Vec::new();
    let mut cur: &[u8] = payload;
    assert(payload@ =~= enc_items(access_list_view(out@)) + cur@);
    proof {
        assert forall|t: Seq<(Address, Seq<B256>)>| payload@ == #[trigger] enc_items(t) implies out@.len()
            <= t.len() && access_list_view(out@) =~= t.take(out@.len() as int) && cur@ == enc_items(
            t.skip(out@.len() as int),
        ) by {
            assert(t.skip(0) =~= t);
        }
    }
    while cur.len() > 0
        invariant
            payload@ == enc_items(access_list_view(out@)) + cur@,
            forall|t: Seq<(Address, Seq<B256>)>| #[trigger]
                starts_with(buf@, rlp_list(enc_items(t))) ==> payload@ == enc_items(t),
            forall|t: Seq<(Address, Seq<B256>)>|
                payload@ == #[trigger] enc_items(t) ==> out@.len() <= t.len() && access_list_view(out@)
                    == t.take(out@.len() as int) && cur@ == enc_items(t.skip(out@.len() as int)),
        decreases cur@.len(),
    {
        match decode_item(cur) {
            Ok((c, r2)) => {
                let ghost k: int = out@.len() as int;
                proof {
                    lemma_rlp_lens(0, true, item_payload(c@).len());
                    lemma_enc_items_push(access_list_view(out@), c@);
                    assert(access_list_view(out@.push(c)) =~= access_list_view(out@).push(c@));
                    assert forall|t: Seq<(Address, Seq<B256>)>| payload@ == #[trigger] enc_items(t) implies k
                        + 1 <= t.len() && access_list_view(out@.push(c)) == t.take(k + 1) && r2@
                        == enc_items(t.skip(k + 1)) by {
                        lemma_enc_items_skip(t, k);
                        assert(k < t.len());
                        lemma_sw_self(enc_item(t[k]), enc_items(t.skip(k + 1)));
                        assert(starts_with(cur@, enc_item(t[k])));
                        assert(t.take(k + 1) =~= t.take(k).push(t[k]));
                    }
                }
                out.push(c);
                cur = r2;
                proof {
                    assert(payload@ =~= enc_items(access_list_view(out@)) + cur@);
                }
            },
            Err(e) => {
                proof {
                    assert forall|t: Seq<(Address, Seq<B256>)>| !starts_with(
                        buf@,
                        #[trigger] rlp_list(enc_items(t)),
                    ) by {
                        if starts_with(buf@, rlp_list(enc_items(t))) {
                            let k = out@.len() as int;
                            lemma_enc_items_skip(t, k);
                            lemma_sw_self(enc_item(t[k]), enc_items(t.skip(k + 1)));
                            assert(starts_with(cur@, enc_item(t[k])));
                        }
                    }
                }
                return Err(e);
            },
        }
    }
    proof {
        assert(payload@ =~= enc_items(access_list_view(out@)));
        assert(buf@ =~= rlp_list(enc_items(access_list_view(out@))) + rest@);
        assert forall|t: Seq<(Address, Seq<B256>)>| #[trigger] starts_with(buf@, rlp_list(enc_items(t))) implies access_list_view(out@)
            == t by {
            lemma_enc_items_skip(t, out@.len() as int);
            if out@.len() < t.len() {
                assert(cur@.len() > 0);
            }
            assert(t.take(t.len() as int) =~= t);
        }
    }
    Ok((out, rest))
}


// ---------------------------------------------------------------------------
// Optional addresses
// ---------------------------------------------------------------------------

/// Writes an optional address: the empty string when absent.
pub fn encode_opt_address(o: Option<Address>, out: &mut Vec<u8>)
    ensures
        final(out)@ == old(out)@ + enc_opt_address(o),
{
    match o {
        Some(a) => encode_address(&a, out),
        None => {
            let ghost before = out@;
            out.push(0x80);
            assert(out@ =~= before + seq![0x80u8]);
        },
    }
}

/// Reads an optional address: an empty string (`0x80`) is absent,
/// anything else must be an address.
pub fn decode_opt_address(buf: &[u8]) -> (r: Result<(Option<Address>, &[u8]), RlpError>)
    ensures
        r matches Ok((o, rest)) ==> buf@ == enc_opt_address(o) + rest@,
        forall|o: Option<Address>|
            #[trigger] starts_with(buf@, enc_opt_address(o)) ==> (r matches Ok((p, rest)) && p == o
                && rest@ == buf@.skip(enc_opt_address(o).len() as int)),
{
    if buf.len() > 0 && buf[0] == 0x80 {
        let rest = vstd::slice::slice_subrange(buf, 1, buf.len());
        proof {
            assert(buf@ =~= seq![0x80u8] + rest@);
            assert forall|o: Option<Address>| #[trigger] starts_with(buf@, enc_opt_address(o)) implies o
                is None by {
                if let Some(a) = o {
                    lemma_enc_address_first(a);
                    assert(enc_opt_address(o)[0] == buf@[0]);
                }
            }
            assert(rest@ =~= buf@.skip(1));
        }
        return Ok((None, rest));
    }
    match decode_address(buf) {
        Ok((a, rest)) => {
            proof {
                assert forall|o: Option<Address>| #[trigger] starts_with(buf@, enc_opt_address(o)) implies o
                    == Some(a) by {
                    if let Some(b) = o {
                        assert(starts_with(buf@, enc_address(b)));
                    } else {
                        assert(enc_opt_address(o)[0] == buf@[0]);
                    }
                }
            }
            Ok((Some(a), rest))
        },
        Err(e) => {
            proof {
                assert forall|o: Option<Address>| !starts_with(buf@, #[trigger] enc_opt_address(o)) by {
                    if let Some(b) = o {
                        assert(!starts_with(buf@, enc_address(b)));
                    } else {
                        if starts_with(buf@, enc_opt_address(o)) {
                            assert(enc_opt_address(o)[0] == buf@[0]);
                        }
                    }
                }
            }
            Err(e)
        },
    }
}

// ---------------------------------------------------------------------------
// Transaction fields
// ---------------------------------------------------------------------------

/// A decoded integer is the one whose encoding begins the input.
proof fn lemma_uint_step(x: Seq<u8>, rest: Seq<u8>, v: nat, w: nat)
    requires
        x == rlp_uint(v) + rest,
        starts_with(x, rlp_uint(w)),
        v < pow256(32),
        w < pow256(32),
    ensures
        v == w,
        rest == x.skip(rlp_uint(w).len() as int),
{
    lemma_sw_self(rlp_uint(v), rest);
    lemma_uint_prefix_free(v, w, x);
}

proof fn lemma_int_bounds()
    ensures
        u64::MAX < pow256(32),
        u128::MAX < pow256(32),
{
    lemma_pow256_values();
}

/// Reads the five integer fields.
#[verifier::rlimit(40)]
#[verifier::spinoff_prover]
fn decode_head(buf: &[u8]) -> (r: Result<((u64, u64, u128, u128, u64), &[u8]), RlpError>)
    ensures
        r matches Ok((v, rest)) ==> buf@ == enc_head(v.0, v.1, v.2, v.3, v.4) + rest@,
        forall|a: u64, b: u64, c: u128, d: u128, e: u64|
            #[trigger] starts_with(buf@, enc_head(a, b, c, d, e)) ==> (r matches Ok((v, rest)) && v
                == (a, b, c, d, e)),
{
    proof {
        lemma_int_bounds();
    }
    let (a, r1) = match rlp_decode_u64(buf) {
        Ok(x) => x,
        Err(e) => {
            proof {
                assert forall|a: u64, b: u64, c: u128, d: u128, e: u64| !starts_with(
                    buf@,
                    #[trigger] enc_head(a, b, c, d, e),
                ) by {
                    if starts_with(buf@, enc_head(a, b, c, d, e)) {
                        lemma_sw_concat(buf@, rlp_uint(a as nat), enc_head(a, b, c, d, e).skip(rlp_uint(a as nat).len() as int));
                        assert(enc_head(a, b, c, d, e).subrange(0, rlp_uint(a as nat).len() as int) =~= rlp_uint(a as nat));
                    }
                }
            }
            return Err(RlpError::Codec(e));
        },
    };
    let ghost t1 = |b: u64, c: u128, d: u128, e: u64| rlp_uint(b as nat) + (rlp_uint(c as nat) + (rlp_uint(d as nat) + rlp_uint(e as nat)));
    proof {
        assert forall|a0: u64, b: u64, c: u128, d: u128, e: u64| #[trigger] starts_with(buf@, enc_head(a0, b, c, d, e)) implies a0
            == a && starts_with(r1@, t1(b, c, d, e)) by {
            lemma_sw_concat(buf@, rlp_uint(a0 as nat), t1(b, c, d, e));
            lemma_uint_step(buf@, r1@, a as nat, a0 as nat);
        }
    }
    let (b, r2) = match rlp_decode_u64(r1) {
        Ok(x) => x,
        Err(e) => {
            proof {
                assert forall|a: u64, b: u64, c: u128, d: u128, e: u64| !starts_with(
                    buf@,
                    #[trigger] enc_head(a, b, c, d, e),
                ) by {
                    if starts_with(buf@, enc_head(a, b, c, d, e)) {
                        lemma_sw_concat(r1@, rlp_uint(b as nat), rlp_uint(c as nat) + (rlp_uint(d as nat) + rlp_uint(e as nat)));
                    }
                }
            }
            return Err(RlpError::Codec(e));
        },
    };
    let ghost t2 = |c: u128, d: u128, e: u64| rlp_uint(c as nat) + (rlp_uint(d as nat) + rlp_uint(e as nat));
    proof {
        assert forall|a0: u64, b0: u64, c: u128, d: u128, e: u64| #[trigger] starts_with(buf@, enc_head(a0, b0, c, d, e)) implies a0
            == a && b0 == b && starts_with(r2@, t2(c, d, e)) by {
            lemma_sw_concat(r1@, rlp_uint(b0 as nat), t2(c, d, e));
            lemma_uint_step(r1@, r2@, b as nat, b0 as nat);
        }
    }
    let (c, r3) = match rlp_decode_u128(r2) {
        Ok(x) => x,
        Err(e) => {
            proof {
                assert forall|a: u64, b: u64, c: u128, d: u128, e: u64| !starts_with(
                    buf@,
                    #[trigger] enc_head(a, b, c, d, e),
                ) by {
                    if starts_with(buf@, enc_head(a, b, c, d, e)) {
                        lemma_sw_concat(r2@, rlp_uint(c as nat), rlp_uint(d as nat) + rlp_uint(e as nat));
                    }
                }
            }
            return Err(RlpError::Codec(e));
        },
    };
    proof {
        assert forall|a0: u64, b0: u64, c0: u128, d: u128, e: u64| #[trigger] starts_with(buf@, enc_head(a0, b0, c0, d, e)) implies a0
            == a && b0 == b && c0 == c && starts_with(r3@, rlp_uint(d as nat) + rlp_uint(e as nat)) by {
            lemma_sw_concat(r2@, rlp_uint(c0 as nat), rlp_uint(d as nat) + rlp_uint(e as nat));
            lemma_uint_step(r2@, r3@, c as nat, c0 as nat);
        }
    }
    let (d, r4) = match rlp_decode_u128(r3) {
        Ok(x) => x,
        Err(e) => {
            proof {
                assert forall|a: u64, b: u64, c: u128, d: u128, e: u64| !starts_with(
                    buf@,
                    #[trigger] enc_head(a, b, c, d, e),
                ) by {
                    if starts_with(buf@, enc_head(a, b, c, d, e)) {
                        lemma_sw_concat(r3@, rlp_uint(d as nat), rlp_uint(e as nat));
                    }
                }
            }
            return Err(RlpError::Codec(e));
        },
    };
    proof {
        assert forall|a0: u64, b0: u64, c0: u128, d0: u128, e: u64| #[trigger] starts_with(buf@, enc_head(a0, b0, c0, d0, e)) implies a0
            == a && b0 == b && c0 == c && d0 == d && starts_with(r4@, rlp_uint(e as nat)) by {
            lemma_sw_concat(r3@, rlp_uint(d0 as nat), rlp_uint(e as nat));
            lemma_uint_step(r3@, r4@, d as nat, d0 as nat);
        }
    }
    let (e, r5) = match rlp_decode_u64(r4) {
        Ok(x) => x,
        Err(err) => {
            return Err(RlpError::Codec(err));
        },
    };
    proof {
        assert forall|a0: u64, b0: u64, c0: u128, d0: u128, e0: u64| #[trigger] starts_with(buf@, enc_head(a0, b0, c0, d0, e0)) implies (a0, b0, c0, d0, e0)
            == (a, b, c, d, e) by {
            lemma_uint_step(r4@, r5@, e as nat, e0 as nat);
        }
        assert(buf@ =~= enc_head(a, b, c, d, e) + r5@);
    }
    Ok(((a, b, c, d, e), r5))
}

impl BaseAaTransaction {
    /// Writes the RLP encoding of the nine fields, in order.
    pub fn rlp_encode_fields(&self, out: &mut Vec<u8>)
        ensures
            final(out)@ == old(out)@ + enc_fields(self@),
            final(out)@ == old(out)@ + (rlp_uint(self.chain_id as nat) + rlp_uint(self.nonce as nat) + rlp_uint(
                self.max_priority_fee_per_gas as nat,
            ) + rlp_uint(self.max_fee_per_gas as nat) + rlp_uint(self.gas_limit as nat) + rlp_list(
                enc_calls(calls_view(self.calls@)),
            ) + rlp_list(enc_items(access_list_view(self.access_list@))) + enc_opt_address(self.fee_payer)
                + enc_opt_address(self.root)),
    {
        let ghost o = out@;
        let mut head: Vec<u8> = Vec::new();
        rlp_encode_u64(self.chain_id, &mut head);
        rlp_encode_u64(self.nonce, &mut head);
        rlp_encode_u128(self.max_priority_fee_per_gas, &mut head);
        rlp_encode_u128(self.max_fee_per_gas, &mut head);
        rlp_encode_u64(self.gas_limit, &mut head);
        assert(head@ =~= enc_head(
            self.chain_id,
            self.nonce,
            self.max_priority_fee_per_gas,
            self.max_fee_per_gas,
            self.gas_limit,
        ));
        let mut tail: Vec<u8> = Vec::new();
        encode_calls(&self.calls, &mut tail);
        encode_items(&self.access_list, &mut tail);
        encode_opt_address(self.fee_payer, &mut tail);
        encode_opt_address(self.root, &mut tail);
        assert(tail@ =~= enc_tail(
            calls_view(self.calls@),
            access_list_view(self.access_list@),
            self.fee_payer,
            self.root,
        ));
        out.extend_from_slice(head.as_slice());
        out.extend_from_slice(tail.as_slice());
        assert(out@ =~= o + enc_fields(self@));
        proof {
            lemma_fields_wire_order(self@);
        }
    }

    /// The length of the RLP encoding of the fields.
    pub fn rlp_encoded_fields_length(&self) -> (r: usize)
        ensures
            r == enc_fields(self@).len(),
    {
        let mut scratch: Vec<u8> = Vec::new();
        self.rlp_encode_fields(&mut scratch);
        assert(scratch@ =~= enc_fields(self@));
        scratch.len()
    }

    /// Writes what the signature covers: the type byte `0x76`, then the
    /// fields as a list.
    pub fn encode_for_signing(&self, out: &mut Vec<u8>)
        ensures
            final(out)@ == old(out)@ + seq![0x76u8] + rlp_list(enc_fields(self@)),
    {
        let ghost o = out@;
        out.push(Self::tx_type());
        let payload_length = self.rlp_encoded_fields_length();
        rlp_encode_header(true, payload_length, out);
        self.rlp_encode_fields(out);
        assert(out@ =~= o + seq![0x76u8] + rlp_list(enc_fields(self@)));
    }

    /// The length of what the signature covers.
    pub fn payload_len_for_signature(&self) -> (r: usize)
        ensures
            r == 1 + rlp_list(enc_fields(self@)).len(),
    {
        let mut scratch: Vec<u8> = Vec::new();
        self.encode_for_signing(&mut scratch);
        assert(scratch@.len() == 1 + rlp_list(enc_fields(self@)).len());
        scratch.len()
    }

    /// Reads the nine fields of an AA transaction, in order.
    #[verifier::rlimit(60)]
    #[verifier::spinoff_prover]
    pub fn rlp_decode_fields(buf: &[u8]) -> (r: Result<(BaseAaTransaction, &[u8]), RlpError>)
        ensures
            r matches Ok((tx, rest)) ==> buf@ == enc_fields(tx@) + rest@,
            r matches Ok((tx, rest)) ==> buf@ == (rlp_uint(tx.chain_id as nat) + rlp_uint(tx.nonce as nat) + rlp_uint(
                tx.max_priority_fee_per_gas as nat,
            ) + rlp_uint(tx.max_fee_per_gas as nat) + rlp_uint(tx.gas_limit as nat) + rlp_list(
                enc_calls(calls_view(tx.calls@)),
            ) + rlp_list(enc_items(access_list_view(tx.access_list@))) + enc_opt_address(tx.fee_payer)
                + enc_opt_address(tx.root)) + rest@,
            forall|t: BaseAaTransactionView|
                #[trigger] starts_with(buf@, enc_fields(t)) ==> (r matches Ok((tx, rest)) && tx@
                    == t && rest@ == buf@.skip(enc_fields(t).len() as int)),
    {
        let ghost tail = |t: BaseAaTransactionView| enc_tail(t.calls, t.access_list, t.fee_payer, t.root);
        let ghost head = |t: BaseAaTransactionView| enc_head(t.chain_id, t.nonce, t.max_priority_fee_per_gas, t.max_fee_per_gas, t.gas_limit);
        let ((chain_id, nonce, max_priority_fee_per_gas, max_fee_per_gas, gas_limit), r5) = match decode_head(buf) {
            Ok(x) => x,
            Err(e) => {
                proof {
                    assert forall|t: BaseAaTransactionView| !starts_with(buf@, #[trigger] enc_fields(t)) by {
                        if starts_with(buf@, enc_fields(t)) {
                            lemma_sw_concat(buf@, head(t), tail(t));
                        }
                    }
                }
                return Err(e);
            },
        };
        proof {
            assert forall|t: BaseAaTransactionView| #[trigger] starts_with(buf@, enc_fields(t)) implies chain_id
                == t.chain_id && nonce == t.nonce && max_priority_fee_per_gas
                == t.max_priority_fee_per_gas && max_fee_per_gas == t.max_fee_per_gas && gas_limit
                == t.gas_limit && starts_with(r5@, tail(t)) by {
                lemma_sw_concat(buf@, head(t), tail(t));
                lemma_sw_self(head(t), r5@);
            }
        }
        let (calls, access_list, fee_payer, root, r9) = match decode_tail(r5) {
            Ok(x) => x,
            Err(e) => {
                proof {
                    assert forall|t: BaseAaTransactionView| !starts_with(buf@, #[trigger] enc_fields(t)) by {
                        if starts_with(buf@, enc_fields(t)) {
                            assert(starts_with(r5@, tail(t)));
                        }
                    }
                }
                return Err(e);
            },
        };
        let tx = BaseAaTransaction {
            chain_id,
            nonce,
            max_priority_fee_per_gas,
            max_fee_per_gas,
            gas_limit,
            calls,
            access_list,
            fee_payer,
            root,
        };
        proof {
            assert(buf@ =~= enc_fields(tx@) + r9@);
            assert forall|t: BaseAaTransactionView| #[trigger] starts_with(buf@, enc_fields(t)) implies tx@
                == t && r9@ == buf@.skip(enc_fields(t).len() as int) by {
                assert(starts_with(r5@, tail(t)));
                assert(tx@ == t);
                lemma_sw_self(enc_fields(tx@), r9@);
            }
        }
        Ok((tx, r9))
    }
}

/// Reads the calls, the access list, the fee payer and the root.
#[verifier::rlimit(40)]
#[verifier::spinoff_prover]
fn decode_tail(buf: &[u8]) -> (r: Result<(Vec<Call>, Vec<AccessListItem>, Option<Address>, Option<Address>, &[u8]), RlpError>)
    ensures
        r matches Ok((cs, al, fp, ro, rest)) ==> buf@ == enc_tail(calls_view(cs@), access_list_view(al@), fp, ro) + rest@,
        forall|cs: Seq<(TxKind, U256, Seq<u8>)>, al: Seq<(Address, Seq<B256>)>, fp: Option<Address>, ro: Option<Address>|
            #[trigger] starts_with(buf@, enc_tail(cs, al, fp, ro)) ==> (r matches Ok((c, a, f, o, rest))
                && calls_view(c@) == cs && access_list_view(a@) == al && f == fp && o == ro),
{
    let (calls, r6) = match decode_calls(buf) {
        Ok(x) => x,
        Err(e) => {
            proof {
                assert forall|cs: Seq<(TxKind, U256, Seq<u8>)>, al: Seq<(Address, Seq<B256>)>, fp: Option<Address>, ro: Option<Address>| !starts_with(
                    buf@,
                    #[trigger] enc_tail(cs, al, fp, ro),
                ) by {
                    if starts_with(buf@, enc_tail(cs, al, fp, ro)) {
                        lemma_sw_concat(buf@, rlp_list(enc_calls(cs)), rlp_list(enc_items(al)) + (enc_opt_address(fp) + enc_opt_address(ro)));
                    }
                }
            }
            return Err(e);
        },
    };
    proof {
        assert forall|cs: Seq<(TxKind, U256, Seq<u8>)>, al: Seq<(Address, Seq<B256>)>, fp: Option<Address>, ro: Option<Address>| #[trigger] starts_with(buf@, enc_tail(cs, al, fp, ro)) implies calls_view(calls@)
            == cs && starts_with(r6@, rlp_list(enc_items(al)) + (enc_opt_address(fp) + enc_opt_address(ro))) by {
            lemma_sw_concat(buf@, rlp_list(enc_calls(cs)), rlp_list(enc_items(al)) + (enc_opt_address(fp) + enc_opt_address(ro)));
        }
    }
    let (access_list, r7) = match decode_items(r6) {
        Ok(x) => x,
        Err(e) => {
            proof {
                assert forall|cs: Seq<(TxKind, U256, Seq<u8>)>, al: Seq<(Address, Seq<B256>)>, fp: Option<Address>, ro: Option<Address>| !starts_with(
                    buf@,
                    #[trigger] enc_tail(cs, al, fp, ro),
                ) by {
                    if starts_with(buf@, enc_tail(cs, al, fp, ro)) {
                        lemma_sw_concat(r6@, rlp_list(enc_items(al)), enc_opt_address(fp) + enc_opt_address(ro));
                    }
                }
            }
            return Err(e);
        },
    };
    proof {
        assert forall|cs: Seq<(TxKind, U256, Seq<u8>)>, al: Seq<(Address, Seq<B256>)>, fp: Option<Address>, ro: Option<Address>| #[trigger] starts_with(buf@, enc_tail(cs, al, fp, ro)) implies calls_view(calls@)
            == cs && access_list_view(access_list@) == al && starts_with(r7@, enc_opt_address(fp) + enc_opt_address(ro)) by {
            lemma_sw_concat(r6@, rlp_list(enc_items(al)), enc_opt_address(fp) + enc_opt_address(ro));
        }
    }
    let (fee_payer, r8) = match decode_opt_address(r7) {
        Ok(x) => x,
        Err(e) => {
            proof {
                assert forall|cs: Seq<(TxKind, U256, Seq<u8>)>, al: Seq<(Address, Seq<B256>)>, fp: Option<Address>, ro: Option<Address>| !starts_with(
                    buf@,
                    #[trigger] enc_tail(cs, al, fp, ro),
                ) by {
                    if starts_with(buf@, enc_tail(cs, al, fp, ro)) {
                        lemma_sw_concat(r7@, enc_opt_address(fp), enc_opt_address(ro));
                    }
                }
            }
            return Err(e);
        },
    };
    proof {
        assert forall|cs: Seq<(TxKind, U256, Seq<u8>)>, al: Seq<(Address, Seq<B256>)>, fp: Option<Address>, ro: Option<Address>| #[trigger] starts_with(buf@, enc_tail(cs, al, fp, ro)) implies calls_view(calls@)
            == cs && access_list_view(access_list@) == al && fee_payer == fp && starts_with(r8@, enc_opt_address(ro)) by {
            lemma_sw_concat(r7@, enc_opt_address(fp), enc_opt_address(ro));
        }
    }
    let (root, r9) = match decode_opt_address(r8) {
        Ok(x) => x,
        Err(e) => {
            return Err(e);
        },
    };
    proof {
        assert(buf@ =~= enc_tail(calls_view(calls@), access_list_view(access_list@), fee_payer, root) + r9@);
    }
    Ok((calls, access_list, fee_payer, root, r9))
}

} // verus!
