//! Solidity ABI words as the SCI precompiles and the spending-limit hook read
//! and write them: 32-byte big-endian words, 4-byte selectors, and the revert
//! payloads of the errors the precompiles raise.
use vstd::prelude::*;
use crate::primitives::{
    Address, U256, be_nat, lemma_be_nat_bound, lemma_be_nat_concat, lemma_pow256_positive,
    lemma_pow256_values, pow256, read_be_u128,
};

verus! {

/// The `n` low-order bytes of `v`, big-endian.
pub open spec fn be_bytes(v: nat, n: nat) -> Seq<u8>
    decreases n,
{
    if n == 0 {
        Seq::empty()
    } else {
        be_bytes(v / 256, (n - 1) as nat).push((v % 256) as u8)
    }
}

/// The 32-byte ABI word holding `v`.
pub open spec fn word(v: nat) -> Seq<u8> {
    be_bytes(v, 32)
}

/// The 4 bytes of a function or error selector.
pub open spec fn selector_seq(sel: u32) -> Seq<u8> {
    be_bytes(sel as nat, 4)
}

pub proof fn lemma_be_bytes_len(v: nat, n: nat)
    ensures
        be_bytes(v, n).len() == n,
    decreases n,
{
    if n > 0 {
        lemma_be_bytes_len(v / 256, (n - 1) as nat);
    }
}

/// Reading back the bytes of a value that fits gives the value.
pub proof fn lemma_be_nat_of_be_bytes(v: nat, n: nat)
    requires
        v < pow256(n),
    ensures
        be_nat(be_bytes(v, n)) == v,
        be_bytes(v, n).len() == n,
    decreases n,
{
    lemma_be_bytes_len(v, n);
    if n == 0 {
        assert(pow256(0) == 1);
    } else {
        let s = be_bytes(v, n);
        assert(s.drop_last() =~= be_bytes(v / 256, (n - 1) as nat));
        assert(pow256(n) == 256 * pow256((n - 1) as nat));
        assert(v / 256 < pow256((n - 1) as nat)) by (nonlinear_arith)
            requires
                v < 256 * pow256((n - 1) as nat),
        ;
        lemma_be_nat_of_be_bytes(v / 256, (n - 1) as nat);
    }
}

/// Writing back the value of a byte string gives the byte string.
pub proof fn lemma_be_bytes_of_be_nat(s: Seq<u8>)
    ensures
        be_bytes(be_nat(s), s.len()) == s,
    decreases s.len(),
{
    if s.len() > 0 {
        let v = be_nat(s);
        let x = be_nat(s.drop_last());
        let l = s.last() as nat;
        assert(v / 256 == x && v % 256 == l) by (nonlinear_arith)
            requires
                v == x * 256 + l,
                l < 256,
        ;
        lemma_be_bytes_of_be_nat(s.drop_last());
        assert(be_bytes(v, s.len()) =~= s.drop_last().push(s.last()));
        assert(s.drop_last().push(s.last()) =~= s);
    }
}

/// `be_bytes(v, n)` for a `u128` value.
pub fn be_bytes_u128(v: u128, n: usize) -> (r: Vec<u8>)
    ensures
        r@ == be_bytes(v as nat, n as nat),
    decreases n,
{
    if n == 0 {
        Vec::new()
    } else {
        let mut r = be_bytes_u128(v / 256, n - 1);
        r.push((v % 256) as u8);
        r
    }
}

/// The ABI word of a 256-bit value.
pub fn u256_word(x: &U256) -> (r: Vec<u8>)
    ensures
        r@ == word(x@),
{
    let mut r = be_bytes_u128(x.hi, 16);
    let lo = be_bytes_u128(x.lo, 16);
    let ghost s1 = r@;
    r.extend_from_slice(lo.as_slice());
    proof {
        lemma_pow256_values();
        lemma_be_nat_of_be_bytes(x.hi as nat, 16);
        lemma_be_nat_of_be_bytes(x.lo as nat, 16);
        assert(r@ =~= s1 + lo@);
        lemma_be_nat_concat(s1, lo@);
        lemma_be_bytes_of_be_nat(r@);
    }
    r
}

/// The ABI word of an address (left-padded with 12 zero bytes).
pub fn address_word(a: &Address) -> (r: Vec<u8>)
    ensures
        r@ == word(a@),
{
    let mut r = be_bytes_u128(0, 12);
    let mid = be_bytes_u128(a.hi as u128, 4);
    let lo = be_bytes_u128(a.lo, 16);
    let ghost s0 = r@;
    r.extend_from_slice(mid.as_slice());
    r.extend_from_slice(lo.as_slice());
    proof {
        lemma_pow256_values();
        lemma_pow256_positive(12);
        lemma_be_nat_of_be_bytes(0, 12);
        lemma_be_nat_of_be_bytes(a.hi as nat, 4);
        lemma_be_nat_of_be_bytes(a.lo as nat, 16);
        assert(r@ =~= (s0 + mid@) + lo@);
        lemma_be_nat_concat(s0, mid@);
        lemma_be_nat_concat(s0 + mid@, lo@);
        lemma_be_bytes_of_be_nat(r@);
    }
    r
}

/// The ABI word of a boolean: one for `true`, zero for `false`.
pub fn bool_word(b: bool) -> (r: Vec<u8>)
    ensures
        r@ == word(if b {
            1nat
        } else {
            0nat
        }),
{
    be_bytes_u128(if b {
        1
    } else {
        0
    }, 32)
}

/// The 4 bytes of a selector.
pub fn selector_bytes(sel: u32) -> (r: Vec<u8>)
    ensures
        r@ == selector_seq(sel),
{
    be_bytes_u128(sel as u128, 4)
}

/// The selector at the head of `data` (its first 4 bytes, big-endian).
pub fn read_selector(data: &[u8]) -> (r: u32)
    requires
        data@.len() >= 4,
    ensures
        r as nat == be_nat(data@.subrange(0, 4)),
        selector_seq(r) == data@.subrange(0, 4),
{
    let v = read_be_u128(data, 0, 4);
    proof {
        lemma_be_nat_bound(data@.subrange(0, 4));
        lemma_pow256_values();
        lemma_be_bytes_of_be_nat(data@.subrange(0, 4));
    }
    v as u32
}

/// `transfer(address,uint256)`.
pub const TRANSFER_SELECTOR: u32 = 0xa9059cbb;

/// `approve(address,uint256)`.
pub const APPROVE_SELECTOR: u32 = 0x095ea7b3;

/// `transferFrom(address,address,uint256)`.
pub const TRANSFER_FROM_SELECTOR: u32 = 0x23b872dd;

/// `transferWithMemo(address,uint256,bytes32)`.
pub const TRANSFER_WITH_MEMO_SELECTOR: u32 = 0x95777d59;

/// `tripKey(address)`.
pub const TRIP_KEY_SELECTOR: u32 = 0x67f12341;

/// `untripKey(address)`.
pub const UNTRIP_KEY_SELECTOR: u32 = 0xbf0695e4;

/// `isTripped(address)`.
pub const IS_TRIPPED_SELECTOR: u32 = 0xf3a46c7b;

/// Error `Unauthorized()`.
pub const UNAUTHORIZED_SELECTOR: u32 = 0x82b42900;

/// Error `KeyTripped(address)`.
pub const KEY_TRIPPED_SELECTOR: u32 = 0x0224c2e5;

/// Error `UnknownFunctionSelector(bytes4)`.
pub const UNKNOWN_FUNCTION_SELECTOR_SELECTOR: u32 = 0xaa4bc69a;

/// Error `Panic(uint256)`.
pub const PANIC_SELECTOR: u32 = 0x4e487b71;

/// Error `DelegateCallNotAllowed()`.
pub const DELEGATE_CALL_NOT_ALLOWED_SELECTOR: u32 = 0x0d89438e;

/// Error `StaticCallNotAllowed()`.
pub const STATIC_CALL_NOT_ALLOWED_SELECTOR: u32 = 0xbeaba5b7;

/// The ABI encoding of an error or call with no arguments.
pub fn encode_no_args(sel: u32) -> (r: Vec<u8>)
    ensures
        r@ == selector_seq(sel),
{
    selector_bytes(sel)
}

/// The ABI encoding of an error or call with one static word argument.
pub open spec fn one_word_payload(sel: u32, arg: nat) -> Seq<u8> {
    selector_seq(sel) + word(arg)
}

/// The ABI encoding of an error or call taking one address.
pub fn encode_address_arg(sel: u32, a: &Address) -> (r: Vec<u8>)
    ensures
        r@ == one_word_payload(sel, a@),
{
    let mut r = selector_bytes(sel);
    let w = address_word(a);
    r.extend_from_slice(w.as_slice());
    r
}

/// The ABI encoding of an error or call taking one `uint256`.
pub fn encode_u256_arg(sel: u32, x: &U256) -> (r: Vec<u8>)
    ensures
        r@ == one_word_payload(sel, x@),
{
    let mut r = selector_bytes(sel);
    let w = u256_word(x);
    r.extend_from_slice(w.as_slice());
    r
}

/// `UnknownFunctionSelector(bytes4 selector)`: the selector, left-aligned in
/// its word.
pub open spec fn unknown_selector_payload(sel: u32) -> Seq<u8> {
    selector_seq(UNKNOWN_FUNCTION_SELECTOR_SELECTOR) + selector_seq(sel) + be_bytes(0, 28)
}

/// The revert payload of `UnknownFunctionSelector(selector)`.
pub fn encode_unknown_selector(sel: u32) -> (r: Vec<u8>)
    ensures
        r@ == unknown_selector_payload(sel),
{
    let mut r = selector_bytes(UNKNOWN_FUNCTION_SELECTOR_SELECTOR);
    let s = selector_bytes(sel);
    let z = be_bytes_u128(0, 28);
    r.extend_from_slice(s.as_slice());
    r.extend_from_slice(z.as_slice());
    r
}

} // verus!
