//! Recursive-length-prefix (RLP) encoding: what the encodings of integers,
//! byte strings and list headers are, and the `alloy_rlp` calls that write
//! and read them.
use vstd::prelude::*;
use crate::abi::{be_bytes, lemma_be_bytes_len, lemma_be_nat_of_be_bytes};
use crate::primitives::{be_nat, lemma_be_nat_concat, lemma_pow256_positive, pow256};

verus! {

/// The number of bytes of the minimal big-endian form of `v` (zero for 0).
pub open spec fn byte_len(v: nat) -> nat
    decreases v,
{
    if v == 0 {
        0
    } else {
        1 + byte_len(v / 256)
    }
}

/// The minimal big-endian bytes of `v`.
pub open spec fn be_min(v: nat) -> Seq<u8> {
    be_bytes(v, byte_len(v))
}

/// The RLP encoding of an unsigned integer: `0x80` for zero, the byte
/// itself below `0x80`, otherwise `0x80 + n` followed by its `n` minimal
/// big-endian bytes.
pub open spec fn rlp_uint(v: nat) -> Seq<u8> {
    if v == 0 {
        seq![0x80u8]
    } else if v < 0x80 {
        seq![v as u8]
    } else {
        seq![(0x80 + byte_len(v)) as u8] + be_min(v)
    }
}

/// The RLP header of a list (or a string) whose payload is `len` bytes:
/// one byte `code + len` below 56 bytes, otherwise `code + 55 + n`
/// followed by the `n` minimal big-endian bytes of the length, with code
/// `0xc0` for lists and `0x80` for strings.
pub open spec fn rlp_header(list: bool, len: nat) -> Seq<u8> {
    let code: nat = if list {
        0xc0
    } else {
        0x80
    };
    if len < 56 {
        seq![(code + len) as u8]
    } else {
        seq![(code + 55 + byte_len(len)) as u8] + be_min(len)
    }
}

/// The RLP encoding of a byte string: a single byte below `0x80` stands for
/// itself; anything else is a string header followed by the bytes.
pub open spec fn rlp_string(s: Seq<u8>) -> Seq<u8> {
    if s.len() == 1 && s[0] < 0x80 {
        s
    } else {
        rlp_header(false, s.len()) + s
    }
}

/// The RLP encoding of a list whose items encode to `payload`.
pub open spec fn rlp_list(payload: Seq<u8>) -> Seq<u8> {
    rlp_header(true, payload.len()) + payload
}

/// `x` begins with `p`.
pub open spec fn starts_with(x: Seq<u8>, p: Seq<u8>) -> bool {
    p.len() <= x.len() && x.subrange(0, p.len() as int) =~= p
}

pub proof fn lemma_byte_len_bounds(v: nat)
    ensures
        v < pow256(byte_len(v)),
        v > 0 ==> pow256((byte_len(v) - 1) as nat) <= v,
        v > 0 ==> byte_len(v) >= 1,
    decreases v,
{
    if v > 0 {
        lemma_byte_len_bounds(v / 256);
        let q = v / 256;
        let p = pow256(byte_len(q));
        assert(pow256(byte_len(v)) == 256 * p);
        assert(v < 256 * p) by (nonlinear_arith)
            requires
                q < p,
                q == v / 256,
        ;
        if q > 0 {
            let p1 = pow256((byte_len(q) - 1) as nat);
            assert(p == 256 * p1);
            assert(256 * p1 <= v) by (nonlinear_arith)
                requires
                    p1 <= q,
                    q == v / 256,
            ;
        } else {
            assert(byte_len(q) == 0);
            assert(pow256(0) == 1);
        }
    }
}

pub proof fn lemma_byte_len_le(v: nat, k: nat)
    requires
        v < pow256(k),
    ensures
        byte_len(v) <= k,
    decreases k,
{
    if v > 0 {
        if k == 0 {
            assert(pow256(0) == 1);
        } else {
            assert(pow256(k) == 256 * pow256((k - 1) as nat));
            assert(v / 256 < pow256((k - 1) as nat)) by (nonlinear_arith)
                requires
                    v < 256 * pow256((k - 1) as nat),
            ;
            lemma_byte_len_le(v / 256, (k - 1) as nat);
        }
    }
}

/// The minimal bytes of `v` read back as `v`, have the minimal length, and
/// start with a non-zero byte.
pub proof fn lemma_be_min(v: nat)
    ensures
        be_min(v).len() == byte_len(v),
        be_nat(be_min(v)) == v,
        v > 0 ==> be_min(v)[0] != 0,
{
    lemma_byte_len_bounds(v);
    lemma_be_nat_of_be_bytes(v, byte_len(v));
    if v > 0 {
        let s = be_min(v);
        let k = byte_len(v);
        let head = s.subrange(0, 1);
        let tail = s.subrange(1, k as int);
        assert(s =~= head + tail);
        lemma_be_nat_concat(head, tail);
        crate::primitives::lemma_be_nat_bound(tail);
        assert(be_nat(head) == s[0] as nat) by {
            assert(head.drop_last() =~= Seq::<u8>::empty());
            assert(be_nat(head.drop_last()) == 0);
            assert(head.last() == s[0]);
        }
        if s[0] == 0 {
            assert(be_nat(s) == be_nat(tail));
            assert(false);
        }
    }
}

/// How long the encodings are.
pub proof fn lemma_rlp_lens(v: nat, list: bool, n: nat)
    ensures
        rlp_uint(v).len() == if v < 0x80 {
            1
        } else {
            1 + byte_len(v)
        },
        rlp_header(list, n).len() == if n < 56 {
            1
        } else {
            1 + byte_len(n)
        },
        rlp_uint(v).len() >= 1,
        rlp_header(list, n).len() >= 1,
{
    lemma_be_min(v);
    lemma_be_min(n);
}

/// Two integers below `2^256` whose encodings both begin `x` are equal.
pub proof fn lemma_uint_prefix_free(a: nat, b: nat, x: Seq<u8>)
    requires
        a < pow256(32),
        b < pow256(32),
        starts_with(x, rlp_uint(a)),
        starts_with(x, rlp_uint(b)),
    ensures
        a == b,
{
    lemma_be_min(a);
    lemma_be_min(b);
    lemma_byte_len_le(a, 32);
    lemma_byte_len_le(b, 32);
    lemma_byte_len_bounds(a);
    lemma_byte_len_bounds(b);
    assert(rlp_uint(a)[0] == x[0]);
    assert(rlp_uint(b)[0] == x[0]);
    if a >= 0x80 && b >= 0x80 {
        let k = byte_len(a);
        assert(byte_len(b) == k);
        assert(be_min(a) =~= x.subrange(1, 1 + k as int)) by {
            assert(rlp_uint(a).subrange(1, 1 + k as int) =~= be_min(a));
        }
        assert(be_min(b) =~= x.subrange(1, 1 + k as int)) by {
            assert(rlp_uint(b).subrange(1, 1 + k as int) =~= be_min(b));
        }
    }
}

/// Two headers of one kind (of payloads shorter than `2^64` bytes) that both
/// begin `x` are equal.
pub proof fn lemma_header_prefix_free(list: bool, n1: nat, n2: nat, x: Seq<u8>)
    requires
        n1 < pow256(8),
        n2 < pow256(8),
        starts_with(x, rlp_header(list, n1)),
        starts_with(x, rlp_header(list, n2)),
    ensures
        n1 == n2,
{
    lemma_be_min(n1);
    lemma_be_min(n2);
    lemma_byte_len_le(n1, 8);
    lemma_byte_len_le(n2, 8);
    lemma_byte_len_bounds(n1);
    lemma_byte_len_bounds(n2);
    assert(rlp_header(list, n1)[0] == x[0]);
    assert(rlp_header(list, n2)[0] == x[0]);
    if n1 >= 56 && n2 >= 56 {
        let k = byte_len(n1);
        assert(byte_len(n2) == k);
        assert(be_min(n1) =~= x.subrange(1, 1 + k as int)) by {
            assert(rlp_header(list, n1).subrange(1, 1 + k as int) =~= be_min(n1));
        }
        assert(be_min(n2) =~= x.subrange(1, 1 + k as int)) by {
            assert(rlp_header(list, n2).subrange(1, 1 + k as int) =~= be_min(n2));
        }
    }
}

/// The first byte of a string header is at least `0x80` and below `0xc0`;
/// that of a list header is at least `0xc0`.
pub proof fn lemma_header_first_byte(list: bool, n: nat)
    requires
        n < pow256(8),
    ensures
        list ==> rlp_header(list, n)[0] >= 0xc0,
        !list ==> 0x80 <= rlp_header(list, n)[0] < 0xc0,
{
    lemma_byte_len_le(n, 8);
    lemma_byte_len_bounds(n);
}

/// Two byte strings (shorter than `2^64` bytes) whose encodings both begin
/// `x` are equal.
pub proof fn lemma_string_prefix_free(s1: Seq<u8>, s2: Seq<u8>, x: Seq<u8>)
    requires
        s1.len() < pow256(8),
        s2.len() < pow256(8),
        starts_with(x, rlp_string(s1)),
        starts_with(x, rlp_string(s2)),
    ensures
        s1 == s2,
{
    lemma_header_first_byte(false, s1.len());
    lemma_header_first_byte(false, s2.len());
    lemma_rlp_lens(0, false, s1.len());
    lemma_rlp_lens(0, false, s2.len());
    assert(rlp_string(s1)[0] == x[0]);
    assert(rlp_string(s2)[0] == x[0]);
    let single1 = s1.len() == 1 && s1[0] < 0x80;
    let single2 = s2.len() == 1 && s2[0] < 0x80;
    if single1 && single2 {
        assert(s1 =~= s2);
    } else if !single1 && !single2 {
        let h1 = rlp_header(false, s1.len());
        let h2 = rlp_header(false, s2.len());
        assert(starts_with(x, h1)) by {
            assert(rlp_string(s1).subrange(0, h1.len() as int) =~= h1);
        }
        assert(starts_with(x, h2)) by {
            assert(rlp_string(s2).subrange(0, h2.len() as int) =~= h2);
        }
        lemma_header_prefix_free(false, s1.len(), s2.len(), x);
        assert(h1 == h2);
        assert(s1 =~= x.subrange(h1.len() as int, (h1.len() + s1.len()) as int)) by {
            assert(rlp_string(s1).subrange(h1.len() as int, (h1.len() + s1.len()) as int) =~= s1);
        }
        assert(s2 =~= x.subrange(h1.len() as int, (h1.len() + s2.len()) as int)) by {
            assert(rlp_string(s2).subrange(h2.len() as int, (h2.len() + s2.len()) as int) =~= s2);
        }
    } else if single1 {
        assert(rlp_string(s2)[0] == rlp_header(false, s2.len())[0]);
    } else {
        assert(rlp_string(s1)[0] == rlp_header(false, s1.len())[0]);
    }
}

/// An error reported by `alloy_rlp` while decoding.
#[verifier::external_type_specification]
#[verifier::external_body]
pub struct ExRlpCodecError(alloy_rlp::Error);

/// `<u64 as alloy_rlp::Encodable>::encode`: appends [`rlp_uint`] of `v`.
#[verifier::external_body]
pub(crate) fn rlp_encode_u64(v: u64, out: &mut Vec<u8>)
    ensures
        final(out)@ == old(out)@ + rlp_uint(v as nat),
{
    alloy_rlp::Encodable::encode(&v, out)
}

/// `<u128 as alloy_rlp::Encodable>::encode`: appends [`rlp_uint`] of `v`.
#[verifier::external_body]
pub(crate) fn rlp_encode_u128(v: u128, out: &mut Vec<u8>)
    ensures
        final(out)@ == old(out)@ + rlp_uint(v as nat),
{
    alloy_rlp::Encodable::encode(&v, out)
}

/// The `alloy_rlp::Encodable` impl of a 256-bit `ruint` integer, on the
/// integer whose 32 big-endian bytes are `word`: appends [`rlp_uint`] of
/// its value.
#[verifier::external_body]
pub(crate) fn rlp_encode_u256(word: &[u8], out: &mut Vec<u8>)
    requires
        word@.len() == 32,
    ensures
        final(out)@ == old(out)@ + rlp_uint(be_nat(word@)),
{
    alloy_rlp::Encodable::encode(&alloy_primitives::U256::from_be_slice(word), out)
}

/// `<[u8] as alloy_rlp::Encodable>::encode` (which the fixed-size byte
/// types and `Bytes` encode through): appends [`rlp_string`] of `bytes`.
#[verifier::external_body]
pub(crate) fn rlp_encode_bytes(bytes: &[u8], out: &mut Vec<u8>)
    ensures
        final(out)@ == old(out)@ + rlp_string(bytes@),
{
    alloy_rlp::Encodable::encode(bytes, out)
}

/// `alloy_rlp::Header::encode`: appends [`rlp_header`] of the header.
#[verifier::external_body]
pub(crate) fn rlp_encode_header(list: bool, payload_length: usize, out: &mut Vec<u8>)
    ensures
        final(out)@ == old(out)@ + rlp_header(list, payload_length as nat),
{
    alloy_rlp::Header { list, payload_length }.encode(out)
}

/// `<u64 as alloy_rlp::Decodable>::decode`: reads a canonical
/// [`rlp_uint`] at the head of `buf` (rejecting leading zeros, a wrapped
/// single byte below `0x80` and values that do not fit), returning the value
/// and the bytes after it.
#[verifier::external_body]
pub(crate) fn rlp_decode_u64(buf: &[u8]) -> (r: Result<(u64, &[u8]), alloy_rlp::Error>)
    ensures
        r matches Ok((v, rest)) ==> buf@ == rlp_uint(v as nat) + rest@,
        r is Err ==> forall|v: u64| !starts_with(buf@, #[trigger] rlp_uint(v as nat)),
{
    let mut b: &[u8] = buf;
    let v = <u64 as alloy_rlp::Decodable>::decode(&mut b)?;
    Ok((v, b))
}

/// `<u128 as alloy_rlp::Decodable>::decode`: as [`rlp_decode_u64`], for
/// `u128`.
#[verifier::external_body]
pub(crate) fn rlp_decode_u128(buf: &[u8]) -> (r: Result<(u128, &[u8]), alloy_rlp::Error>)
    ensures
        r matches Ok((v, rest)) ==> buf@ == rlp_uint(v as nat) + rest@,
        r is Err ==> forall|v: u128| !starts_with(buf@, #[trigger] rlp_uint(v as nat)),
{
    let mut b: &[u8] = buf;
    let v = <u128 as alloy_rlp::Decodable>::decode(&mut b)?;
    Ok((v, b))
}

/// The `alloy_rlp::Decodable` impl of a 256-bit `ruint` integer: reads a
/// canonical [`rlp_uint`] below `2^256` at the head of `buf`, returning its
/// 32 big-endian bytes and the bytes after it.
#[verifier::external_body]
pub(crate) fn rlp_decode_u256(buf: &[u8]) -> (r: Result<([u8; 32], &[u8]), alloy_rlp::Error>)
    ensures
        r matches Ok((w, rest)) ==> buf@ == rlp_uint(be_nat(w@)) + rest@,
        r is Err ==> forall|v: nat| v < pow256(32) ==> !starts_with(buf@, #[trigger] rlp_uint(v)),
{
    let mut b: &[u8] = buf;
    let v = <alloy_primitives::U256 as alloy_rlp::Decodable>::decode(&mut b)?;
    Ok((v.to_be_bytes::<32>(), b))
}

/// `<alloy_primitives::Bytes as alloy_rlp::Decodable>::decode`: reads a
/// canonical [`rlp_string`] at the head of `buf`, returning its bytes and
/// the bytes after it.
#[verifier::external_body]
pub(crate) fn rlp_decode_bytes(buf: &[u8]) -> (r: Result<(Vec<u8>, &[u8]), alloy_rlp::Error>)
    ensures
        r matches Ok((s, rest)) ==> buf@ == rlp_string(s@) + rest@,
        r is Err ==> forall|s: Seq<u8>| !starts_with(buf@, #[trigger] rlp_string(s)),
{
    let mut b: &[u8] = buf;
    let s = <alloy_primitives::Bytes as alloy_rlp::Decodable>::decode(&mut b)?;
    Ok((s.to_vec(), b))
}

/// `alloy_rlp::Header::decode_bytes` for a list: reads a canonical list
/// header at the head of `buf` whose payload is there in full, returning the
/// payload and the bytes after it.
#[verifier::external_body]
pub(crate) fn rlp_decode_list(buf: &[u8]) -> (r: Result<(&[u8], &[u8]), alloy_rlp::Error>)
    ensures
        r matches Ok((p, rest)) ==> buf@ == rlp_header(true, p@.len()) + p@ + rest@,
        r is Err ==> forall|n: nat|
            rlp_header(true, n).len() + n <= buf@.len() ==> !starts_with(
                buf@,
                #[trigger] rlp_header(true, n),
            ),
{
    let mut b: &[u8] = buf;
    let p = alloy_rlp::Header::decode_bytes(&mut b, true)?;
    Ok((p, b))
}

} // verus!
