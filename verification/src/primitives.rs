//! Fixed-width EVM values: 256-bit words and 160-bit addresses, with the
//! big-endian byte reading that calldata decoding rests on.
use vstd::prelude::*;

verus! {

/// `256^n`.
pub open spec fn pow256(n: nat) -> nat
    decreases n,
{
    if n == 0 {
        1
    } else {
        256 * pow256((n - 1) as nat)
    }
}

/// The big-endian value of a byte string.
pub open spec fn be_nat(s: Seq<u8>) -> nat
    decreases s.len(),
{
    if s.len() == 0 {
        0
    } else {
        be_nat(s.drop_last()) * 256 + s.last() as nat
    }
}

/// `2^128`.
pub open spec fn two_pow_128() -> nat {
    0x1_0000_0000_0000_0000_0000_0000_0000_0000nat
}

/// The largest value a 256-bit word holds.
pub open spec fn u256_max() -> nat {
    (two_pow_128() * two_pow_128() - 1) as nat
}

/// The largest value a 160-bit address holds.
pub open spec fn address_max() -> nat {
    (0x1_0000_0000 * two_pow_128() - 1) as nat
}

/// Saturating addition on 256-bit words.
pub open spec fn sat_add(a: nat, b: nat) -> nat {
    if a + b > u256_max() {
        u256_max()
    } else {
        a + b
    }
}

pub proof fn lemma_pow256_positive(n: nat)
    ensures
        pow256(n) >= 1,
    decreases n,
{
    if n > 0 {
        lemma_pow256_positive((n - 1) as nat);
    }
}

pub proof fn lemma_pow256_add(a: nat, b: nat)
    ensures
        pow256(a + b) == pow256(a) * pow256(b),
    decreases b,
{
    if b == 0 {
        assert(pow256(0) == 1);
        assert(a + b == a);
    } else {
        lemma_pow256_add(a, (b - 1) as nat);
        assert(pow256(a + b) == 256 * pow256((a + b - 1) as nat));
        assert(pow256(b) == 256 * pow256((b - 1) as nat));
        assert((a + b - 1) as nat == a + (b - 1) as nat);
        let x = pow256(a);
        let y = pow256((b - 1) as nat);
        assert(256 * (x * y) == x * (256 * y)) by (nonlinear_arith);
    }
}

pub proof fn lemma_pow256_mono(a: nat, b: nat)
    requires
        a <= b,
    ensures
        pow256(a) <= pow256(b),
    decreases b - a,
{
    if a < b {
        lemma_pow256_mono(a, (b - 1) as nat);
        lemma_pow256_positive((b - 1) as nat);
    }
}

pub proof fn lemma_pow256_values()
    ensures
        pow256(4) == 0x1_0000_0000,
        pow256(16) == two_pow_128(),
        pow256(20) == 0x1_0000_0000 * two_pow_128(),
        pow256(32) == two_pow_128() * two_pow_128(),
{
    reveal_with_fuel(pow256, 5);
    assert(pow256(4) == 0x1_0000_0000);
    lemma_pow256_add(4, 4);
    assert(pow256(8) == 0x1_0000_0000 * 0x1_0000_0000);
    lemma_pow256_add(8, 8);
    assert(pow256(16) == 0x1_0000_0000_0000_0000nat * 0x1_0000_0000_0000_0000nat);
    lemma_pow256_add(4, 16);
    lemma_pow256_add(16, 16);
}

pub proof fn lemma_be_nat_bound(s: Seq<u8>)
    ensures
        be_nat(s) < pow256(s.len()),
    decreases s.len(),
{
    if s.len() > 0 {
        lemma_be_nat_bound(s.drop_last());
        let x = be_nat(s.drop_last());
        let p = pow256((s.len() - 1) as nat);
        let b = s.last() as nat;
        assert(x * 256 + b < 256 * p) by (nonlinear_arith)
            requires
                x < p,
                b < 256,
        ;
    }
}

pub proof fn lemma_be_nat_concat(a: Seq<u8>, b: Seq<u8>)
    ensures
        be_nat(a + b) == be_nat(a) * pow256(b.len()) + be_nat(b),
    decreases b.len(),
{
    if b.len() == 0 {
        assert(a + b =~= a);
        assert(be_nat(b) == 0);
        assert(pow256(0) == 1);
    } else {
        assert(be_nat(b) == be_nat(b.drop_last()) * 256 + b.last() as nat);
        assert(pow256(b.len()) == 256 * pow256((b.len() - 1) as nat));
        assert((a + b).drop_last() =~= a + b.drop_last());
        assert((a + b).last() == b.last());
        lemma_be_nat_concat(a, b.drop_last());
        let x = be_nat(a);
        let p = pow256((b.len() - 1) as nat);
        let y = be_nat(b.drop_last());
        let l = b.last() as nat;
        assert((x * p + y) * 256 + l == x * (256 * p) + (y * 256 + l)) by (nonlinear_arith);
    }
}

/// Reads `n <= 16` bytes at `off` as a big-endian integer.
pub fn read_be_u128(data: &[u8], off: usize, n: usize) -> (r: u128)
    requires
        off + n <= data@.len(),
        n <= 16,
    ensures
        r as nat == be_nat(data@.subrange(off as int, off + n)),
{
    let len: usize = data.len();
    let mut acc: u128 = 0;
    let mut i: usize = 0;
    while i < n
        invariant
            len == data@.len(),
            i <= n,
            n <= 16,
            off + n <= data@.len(),
            acc as nat == be_nat(data@.subrange(off as int, off + i)),
        decreases n - i,
    {
        proof {
            lemma_be_nat_bound(data@.subrange(off as int, off + i));
            lemma_pow256_mono((i + 1) as nat, 16);
            lemma_pow256_values();
            let p = pow256(i as nat);
            let a = acc as nat;
            let b = data@[off + i] as nat;
            assert(a * 256 + b < 256 * p) by (nonlinear_arith)
                requires
                    a < p,
                    b < 256,
            ;
            assert(data@.subrange(off as int, off + i + 1).drop_last() =~= data@.subrange(
                off as int,
                off + i,
            ));
        }
        acc = acc * 256 + data[off + i] as u128;
        i = i + 1;
    }
    acc
}

/// A 256-bit EVM word, held as two 128-bit halves.
#[derive(Clone, Copy, Debug, PartialEq, Eq, Structural)]
pub struct U256 {
    /// The most significant 128 bits.
    pub hi: u128,
    /// The least significant 128 bits.
    pub lo: u128,
}

impl View for U256 {
    type V = nat;

    open spec fn view(&self) -> nat {
        self.hi as nat * two_pow_128() + self.lo as nat
    }
}

impl U256 {
    /// The zero word.
    pub fn zero() -> (r: U256)
        ensures
            r@ == 0,
    {
        U256 { hi: 0, lo: 0 }
    }

    /// The all-ones word.
    pub fn max_value() -> (r: U256)
        ensures
            r@ == u256_max(),
    {
        U256 { hi: u128::MAX, lo: u128::MAX }
    }

    /// Widens a `u64`.
    pub fn from_u64(x: u64) -> (r: U256)
        ensures
            r@ == x as nat,
    {
        U256 { hi: 0, lo: x as u128 }
    }

    /// Widens a `u128`.
    pub fn from_u128(x: u128) -> (r: U256)
        ensures
            r@ == x as nat,
    {
        U256 { hi: 0, lo: x }
    }

    /// Builds a word from its two halves.
    pub fn from_parts(hi: u128, lo: u128) -> (r: U256)
        ensures
            r@ == hi as nat * two_pow_128() + lo as nat,
    {
        U256 { hi, lo }
    }

    pub proof fn lemma_bounded(self)
        ensures
            self@ <= u256_max(),
    {
        let h = self.hi as nat;
        let l = self.lo as nat;
        assert(h * two_pow_128() + l <= (two_pow_128() - 1) * two_pow_128() + (two_pow_128() - 1))
            by (nonlinear_arith)
            requires
                h < two_pow_128(),
                l < two_pow_128(),
        ;
    }

    /// Two words with the same value are the same word.
    pub proof fn lemma_view_injective(self, other: U256)
        requires
            self@ == other@,
        ensures
            self == other,
    {
        let c = two_pow_128();
        assert(self.hi == other.hi && self.lo == other.lo) by (nonlinear_arith)
            requires
                self.hi as nat * c + self.lo as nat == other.hi as nat * c + other.lo as nat,
                self.lo < c,
                other.lo < c,
                c == two_pow_128(),
        ;
    }

    /// `true` iff the word is zero.
    pub fn is_zero(&self) -> (r: bool)
        ensures
            r == (self@ == 0),
    {
        self.hi == 0 && self.lo == 0
    }

    /// `self > other`.
    pub fn gt(&self, other: &U256) -> (r: bool)
        ensures
            r == (self@ > other@),
    {
        let ghost c = two_pow_128();
        proof {
            assert(self.hi > other.hi ==> self@ > other@) by (nonlinear_arith)
                requires
                    self@ == self.hi as nat * c + self.lo as nat,
                    other@ == other.hi as nat * c + other.lo as nat,
                    other.lo < c,
            ;
            assert(self.hi < other.hi ==> self@ < other@) by (nonlinear_arith)
                requires
                    self@ == self.hi as nat * c + self.lo as nat,
                    other@ == other.hi as nat * c + other.lo as nat,
                    self.lo < c,
            ;
        }
        if self.hi != other.hi {
            self.hi > other.hi
        } else {
            self.lo > other.lo
        }
    }

    /// `self >= other`.
    pub fn ge(&self, other: &U256) -> (r: bool)
        ensures
            r == (self@ >= other@),
    {
        !other.gt(self)
    }

    /// `self - other` for `self >= other`.
    pub fn sub_exact(&self, other: &U256) -> (r: U256)
        requires
            self@ >= other@,
        ensures
            r@ == self@ - other@,
    {
        let ghost c = two_pow_128();
        let lo: u128;
        let borrow: u128;
        if self.lo >= other.lo {
            lo = self.lo - other.lo;
            borrow = 0;
        } else {
            lo = u128::MAX - (other.lo - self.lo) + 1;
            borrow = 1;
        }
        assert(self.lo + borrow * c == other.lo + lo);
        assert(self.hi >= other.hi + borrow) by (nonlinear_arith)
            requires
                self.hi * c + self.lo >= other.hi * c + other.lo,
                self.lo + borrow * c == other.lo + lo,
                lo < c,
                borrow == 0 || borrow == 1,
                c > 0,
        ;
        let r = U256 { hi: self.hi - other.hi - borrow, lo };
        assert(r@ == self@ - other@) by (nonlinear_arith)
            requires
                r@ == (self.hi - other.hi - borrow) * c + lo,
                self@ == self.hi * c + self.lo,
                other@ == other.hi * c + other.lo,
                self.lo + borrow * c == other.lo + lo,
        ;
        r
    }

    /// Saturating subtraction: `self - other`, or zero when `other` is larger.
    pub fn saturating_sub(&self, other: &U256) -> (r: U256)
        ensures
            r@ == if self@ >= other@ {
                self@ - other@
            } else {
                0
            },
    {
        if self.ge(other) {
            self.sub_exact(other)
        } else {
            U256::zero()
        }
    }

    /// Saturating addition: the sum, or the all-ones word where the sum does
    /// not fit in 256 bits.
    pub fn saturating_add(&self, other: &U256) -> (r: U256)
        ensures
            r@ == sat_add(self@, other@),
    {
        let ghost c = two_pow_128();
        let lo: u128;
        let carry: u128;
        if other.lo <= u128::MAX - self.lo {
            lo = self.lo + other.lo;
            carry = 0;
        } else {
            lo = other.lo - (u128::MAX - self.lo) - 1;
            carry = 1;
        }
        assert(self.lo + other.lo == carry * c + lo);
        if self.hi <= u128::MAX - other.hi && carry <= u128::MAX - self.hi - other.hi {
            let r = U256 { hi: self.hi + other.hi + carry, lo };
            assert(r@ == self@ + other@) by (nonlinear_arith)
                requires
                    r@ == (self.hi + other.hi + carry) * c + lo,
                    self@ == self.hi * c + self.lo,
                    other@ == other.hi * c + other.lo,
                    self.lo + other.lo == carry * c + lo,
            ;
            proof {
                r.lemma_bounded();
            }
            r
        } else {
            assert(self@ + other@ > u256_max()) by (nonlinear_arith)
                requires
                    self.hi + other.hi + carry > u128::MAX,
                    self@ == self.hi * c + self.lo,
                    other@ == other.hi * c + other.lo,
                    self.lo + other.lo == carry * c + lo,
                    u256_max() == c * c - 1,
                    c == u128::MAX + 1,
                    lo >= 0,
            ;
            U256::max_value()
        }
    }

    /// The exact product of a `u64` and a `u128`, which always fits in 256 bits.
    pub fn mul_u64_u128(a: u64, b: u128) -> (r: U256)
        ensures
            r@ == a as nat * b as nat,
    {
        let m: u128 = 0x1_0000_0000_0000_0000;
        let bh: u128 = b / m;
        let bl: u128 = b % m;
        assert(a * bl < m * m) by (nonlinear_arith)
            requires
                a < m,
                bl < m,
        ;
        assert(a * bh < m * m) by (nonlinear_arith)
            requires
                a < m,
                bh < m,
                bh == b / m,
                b <= u128::MAX,
                m == 0x1_0000_0000_0000_0000,
        ;
        let p1: u128 = a as u128 * bl;
        let p2: u128 = a as u128 * bh;
        // a * b == p1 + p2 * m == p1 + (p2 / m) * m^2 + (p2 % m) * m
        let p2h: u128 = p2 / m;
        let p2l: u128 = p2 % m;
        assert(p2l * m <= (m - 1) * m) by (nonlinear_arith)
            requires
                p2l < m,
        ;
        let shifted: u128 = p2l * m;
        let lo: u128;
        let carry: u128;
        if shifted <= u128::MAX - p1 {
            lo = p1 + shifted;
            carry = 0;
        } else {
            lo = shifted - (u128::MAX - p1) - 1;
            carry = 1;
        }
        assert(p2h < m) by (nonlinear_arith)
            requires
                p2h == p2 / m,
                p2 < m * m,
                m > 0,
        ;
        let r = U256 { hi: p2h + carry, lo };
        let ghost c = two_pow_128();
        assert(r@ == a as nat * b as nat) by (nonlinear_arith)
            requires
                r@ == (p2h + carry) * c + lo,
                c == m * m,
                p1 + shifted == carry * c + lo,
                shifted == p2l * m,
                p2 == p2h * m + p2l,
                p2 == a * bh,
                p1 == a * bl,
                b == bh * m + bl,
        ;
        r
    }

    /// Reads the 32-byte big-endian word at `off`.
    pub fn from_be_slice(data: &[u8], off: usize) -> (r: U256)
        requires
            off + 32 <= data@.len(),
        ensures
            r@ == be_nat(data@.subrange(off as int, off + 32)),
    {
        let _len: usize = data.len();
        let hi = read_be_u128(data, off, 16);
        let lo = read_be_u128(data, off + 16, 16);
        proof {
            let s = data@.subrange(off as int, off + 32);
            assert(s =~= data@.subrange(off as int, off + 16) + data@.subrange(off + 16, off + 32));
            lemma_be_nat_concat(data@.subrange(off as int, off + 16), data@.subrange(off + 16, off + 32));
            lemma_pow256_values();
        }
        U256 { hi, lo }
    }
}

/// A 160-bit account address, held as its top 32 bits and its low 128 bits.
#[derive(Clone, Copy, Debug, PartialEq, Eq, Hash, Structural)]
pub struct Address {
    /// The most significant 32 bits.
    pub hi: u32,
    /// The least significant 128 bits.
    pub lo: u128,
}

impl View for Address {
    type V = nat;

    open spec fn view(&self) -> nat {
        self.hi as nat * two_pow_128() + self.lo as nat
    }
}

impl Address {
    /// The zero address.
    pub fn zero() -> (r: Address)
        ensures
            r@ == 0,
            r == (Address { hi: 0, lo: 0 }),
    {
        Address { hi: 0, lo: 0 }
    }

    /// `true` iff this is the zero address.
    pub fn is_zero(&self) -> (r: bool)
        ensures
            r == (self@ == 0),
    {
        self.hi == 0 && self.lo == 0
    }

    /// Two addresses with the same value are the same address.
    pub proof fn lemma_view_injective(self, other: Address)
        requires
            self@ == other@,
        ensures
            self == other,
    {
        let c = two_pow_128();
        assert(self.hi == other.hi && self.lo == other.lo) by (nonlinear_arith)
            requires
                self.hi as nat * c + self.lo as nat == other.hi as nat * c + other.lo as nat,
                self.lo < c,
                other.lo < c,
                c == two_pow_128(),
        ;
    }

    /// Reads a 20-byte big-endian address at `off`.
    pub fn from_be_slice(data: &[u8], off: usize) -> (r: Address)
        requires
            off + 20 <= data@.len(),
        ensures
            r@ == be_nat(data@.subrange(off as int, off + 20)),
    {
        let _len: usize = data.len();
        let hi = read_be_u128(data, off, 4);
        let lo = read_be_u128(data, off + 4, 16);
        proof {
            let s = data@.subrange(off as int, off + 20);
            assert(s =~= data@.subrange(off as int, off + 4) + data@.subrange(off + 4, off + 20));
            lemma_be_nat_concat(data@.subrange(off as int, off + 4), data@.subrange(off + 4, off + 20));
            lemma_be_nat_bound(data@.subrange(off as int, off + 4));
            lemma_pow256_values();
        }
        Address { hi: hi as u32, lo }
    }

    /// Builds an address from its 20 big-endian bytes.
    pub fn from_bytes(bytes: [u8; 20]) -> (r: Address)
        ensures
            r@ == be_nat(bytes@),
    {
        let s = bytes.as_slice();
        let r = Address::from_be_slice(s, 0);
        assert(s@.subrange(0, 20) =~= bytes@);
        r
    }
}

} // verus!
