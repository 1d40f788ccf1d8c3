//! Word-sized models of the on-chain primitive values: 160-bit addresses and
//! 256-bit words, stored big-endian as machine integers, together with the
//! spec-level bridge between those words and raw byte sequences.

use vstd::prelude::*;

verus! {

/// A 20-byte contract or participant address, stored big-endian:
/// `w0` holds bytes 0..8, `w1` bytes 8..16, `w2` bytes 16..20.
#[derive(Clone, Copy, PartialEq, Eq, Structural, Debug)]
pub struct Address {
    pub w0: u64,
    pub w1: u64,
    pub w2: u32,
}

/// A 32-byte hash or topic word, stored big-endian:
/// `w0` holds bytes 0..8, ..., `w3` bytes 24..32.
#[derive(Clone, Copy, PartialEq, Eq, Structural, Debug)]
pub struct H256 {
    pub w0: u64,
    pub w1: u64,
    pub w2: u64,
    pub w3: u64,
}

/// An unsigned 256-bit integer as decoded from one ABI word, stored
/// big-endian in four machine words like `H256`.
#[derive(Clone, Copy, PartialEq, Eq, Structural, Debug)]
pub struct U256 {
    pub w0: u64,
    pub w1: u64,
    pub w2: u64,
    pub w3: u64,
}

impl Address {
    pub fn zero() -> (r: Address)
        ensures
            r == (Address { w0: 0, w1: 0, w2: 0 }),
    {
        Address { w0: 0, w1: 0, w2: 0 }
    }
}

impl H256 {
    pub fn zero() -> (r: H256)
        ensures
            r == (H256 { w0: 0, w1: 0, w2: 0, w3: 0 }),
    {
        H256 { w0: 0, w1: 0, w2: 0, w3: 0 }
    }
}

impl U256 {
    /// The value as a `u64`, if it fits; the explicit range check every
    /// caller goes through before narrowing a 256-bit chain value.
    pub fn as_u64(&self) -> (r: Option<u64>)
        ensures
            r == if self.w0 == 0 && self.w1 == 0 && self.w2 == 0 {
                Some(self.w3)
            } else {
                None::<u64>
            },
    {
        if self.w0 == 0 && self.w1 == 0 && self.w2 == 0 {
            Some(self.w3)
        } else {
            None
        }
    }
}

/// The big-endian value of a byte sequence.
pub open spec fn be_val(s: Seq<u8>) -> nat
    decreases s.len(),
{
    if s.len() == 0 {
        0
    } else {
        be_val(s.drop_last()) * 256 + (s.last() as nat)
    }
}

/// 256 to the power `n`: the exclusive upper bound of `be_val` on `n` bytes.
pub open spec fn pow256(n: nat) -> nat
    decreases n,
{
    if n == 0 {
        1
    } else {
        256 * pow256((n - 1) as nat)
    }
}

pub proof fn lemma_pow256_consts()
    ensures
        pow256(4) == 0x1_0000_0000,
        pow256(8) == 0x1_0000_0000_0000_0000,
{
    reveal_with_fuel(pow256, 9);
}

pub proof fn lemma_be_val_bound(s: Seq<u8>)
    ensures
        be_val(s) < pow256(s.len()),
    decreases s.len(),
{
    if s.len() > 0 {
        lemma_be_val_bound(s.drop_last());
        assert(be_val(s.drop_last()) * 256 + 256 <= pow256((s.len() - 1) as nat) * 256)
            by (nonlinear_arith)
            requires
                be_val(s.drop_last()) < pow256((s.len() - 1) as nat),
        ;
    }
}

/// The address held in a 20-byte sequence.
pub open spec fn addr_of_bytes(b: Seq<u8>) -> Address
    recommends
        b.len() == 20,
{
    Address {
        w0: be_val(b.subrange(0, 8)) as u64,
        w1: be_val(b.subrange(8, 16)) as u64,
        w2: be_val(b.subrange(16, 20)) as u32,
    }
}

/// The 32-byte word held in a byte sequence.
pub open spec fn h256_of_bytes(b: Seq<u8>) -> H256
    recommends
        b.len() == 32,
{
    H256 {
        w0: be_val(b.subrange(0, 8)) as u64,
        w1: be_val(b.subrange(8, 16)) as u64,
        w2: be_val(b.subrange(16, 24)) as u64,
        w3: be_val(b.subrange(24, 32)) as u64,
    }
}

/// The 256-bit integer held in one big-endian ABI word.
pub open spec fn u256_of_bytes(b: Seq<u8>) -> U256
    recommends
        b.len() == 32,
{
    U256 {
        w0: be_val(b.subrange(0, 8)) as u64,
        w1: be_val(b.subrange(8, 16)) as u64,
        w2: be_val(b.subrange(16, 24)) as u64,
        w3: be_val(b.subrange(24, 32)) as u64,
    }
}

/// Reads the big-endian `u64` held in `s[lo..lo + 8]`.
pub fn u64_from_be_slice(s: &[u8], lo: usize) -> (r: u64)
    requires
        lo + 8 <= s@.len(),
    ensures
        r == be_val(s@.subrange(lo as int, lo + 8)),
{
    let n: usize = s.len();
    let ghost sub = s@.subrange(lo as int, lo + 8);
    let mut acc: u64 = 0;
    let mut j: usize = 0;
    while j < 8
        invariant
            0 <= j <= 8,
            n == s@.len(),
            lo + 8 <= n,
            sub == s@.subrange(lo as int, lo + 8),
            acc == be_val(sub.take(j as int)),
            acc < pow256(j as nat),
        decreases 8 - j,
    {
        proof {
            assert(sub.take(j + 1).drop_last() =~= sub.take(j as int));
            assert(sub.take(j + 1).last() == s@[lo + j]);
            lemma_be_val_bound(sub.take(j + 1));
            lemma_pow256_consts();
            assert(pow256(j as nat + 1) <= pow256(8)) by {
                lemma_pow256_increases(j as nat + 1, 8);
            }
        }
        acc = acc * 256 + (s[lo + j] as u64);
        j = j + 1;
    }
    proof {
        assert(sub.take(8) =~= sub);
    }
    acc
}

pub proof fn lemma_pow256_increases(m: nat, n: nat)
    requires
        m <= n,
    ensures
        pow256(m) <= pow256(n),
    decreases n,
{
    if m < n {
        lemma_pow256_increases(m, (n - 1) as nat);
        assert(pow256((n - 1) as nat) * 1 <= pow256((n - 1) as nat) * 256) by (nonlinear_arith)
            requires
                pow256((n - 1) as nat) >= 0,
        ;
    }
}

/// Reads the big-endian `u32` held in `s[lo..lo + 4]`.
pub fn u32_from_be_slice(s: &[u8], lo: usize) -> (r: u32)
    requires
        lo + 4 <= s@.len(),
    ensures
        r == be_val(s@.subrange(lo as int, lo + 4)),
{
    let n: usize = s.len();
    let ghost sub = s@.subrange(lo as int, lo + 4);
    let mut acc: u32 = 0;
    let mut j: usize = 0;
    while j < 4
        invariant
            0 <= j <= 4,
            n == s@.len(),
            lo + 4 <= n,
            sub == s@.subrange(lo as int, lo + 4),
            acc == be_val(sub.take(j as int)),
            acc < pow256(j as nat),
        decreases 4 - j,
    {
        proof {
            assert(sub.take(j + 1).drop_last() =~= sub.take(j as int));
            assert(sub.take(j + 1).last() == s@[lo + j]);
            lemma_be_val_bound(sub.take(j + 1));
            lemma_pow256_consts();
            assert(pow256(j as nat + 1) <= pow256(4)) by {
                lemma_pow256_increases(j as nat + 1, 4);
            }
        }
        acc = acc * 256 + (s[lo + j] as u32);
        j = j + 1;
    }
    proof {
        assert(sub.take(4) =~= sub);
    }
    acc
}

/// Builds the address held in a 20-byte slice.
pub fn address_from_bytes(b: &[u8]) -> (r: Address)
    requires
        b@.len() == 20,
    ensures
        r == addr_of_bytes(b@),
{
    let r = Address {
        w0: u64_from_be_slice(b, 0),
        w1: u64_from_be_slice(b, 8),
        w2: u32_from_be_slice(b, 16),
    };
    proof {
        lemma_be_val_bound(b@.subrange(0, 8));
        lemma_be_val_bound(b@.subrange(8, 16));
        lemma_be_val_bound(b@.subrange(16, 20));
        lemma_pow256_consts();
        lemma_pow256_consts();
    }
    r
}

/// Builds the 32-byte word held in a 32-byte slice.
pub fn h256_from_bytes(b: &[u8]) -> (r: H256)
    requires
        b@.len() == 32,
    ensures
        r == h256_of_bytes(b@),
{
    let r = H256 {
        w0: u64_from_be_slice(b, 0),
        w1: u64_from_be_slice(b, 8),
        w2: u64_from_be_slice(b, 16),
        w3: u64_from_be_slice(b, 24),
    };
    proof {
        lemma_be_val_bound(b@.subrange(0, 8));
        lemma_be_val_bound(b@.subrange(8, 16));
        lemma_be_val_bound(b@.subrange(16, 24));
        lemma_be_val_bound(b@.subrange(24, 32));
        lemma_pow256_consts();
    }
    r
}

/// Builds the 256-bit integer held in a 32-byte slice.
pub fn u256_from_bytes(b: &[u8]) -> (r: U256)
    requires
        b@.len() == 32,
    ensures
        r == u256_of_bytes(b@),
{
    let r = U256 {
        w0: u64_from_be_slice(b, 0),
        w1: u64_from_be_slice(b, 8),
        w2: u64_from_be_slice(b, 16),
        w3: u64_from_be_slice(b, 24),
    };
    proof {
        lemma_be_val_bound(b@.subrange(0, 8));
        lemma_be_val_bound(b@.subrange(8, 16));
        lemma_be_val_bound(b@.subrange(16, 24));
        lemma_be_val_bound(b@.subrange(24, 32));
        lemma_pow256_consts();
    }
    r
}

/// Byte `i` (big-endian, `0 <= i < 8`) of a `u64`.
pub open spec fn u64_be_byte(w: u64, i: int) -> u8 {
    (w >> (((7 - i) * 8) as u64)) as u8
}

/// The 32 bytes of an `H256`, big-endian.
pub open spec fn h256_bytes(h: H256) -> Seq<u8> {
    Seq::new(32, |i: int|
        if i < 8 {
            u64_be_byte(h.w0, i)
        } else if i < 16 {
            u64_be_byte(h.w1, i - 8)
        } else if i < 24 {
            u64_be_byte(h.w2, i - 16)
        } else {
            u64_be_byte(h.w3, i - 24)
        })
}

/// Writes the eight big-endian bytes of `w` onto the end of `out`.
fn push_u64_be(out: &mut Vec<u8>, w: u64)
    ensures
        final(out)@.len() == old(out)@.len() + 8,
        final(out)@.subrange(0, old(out)@.len() as int) == old(out)@,
        forall|i: int| 0 <= i < 8 ==> final(out)@[old(out)@.len() + i] == u64_be_byte(w, i),
{
    let ghost base = out@;
    let mut i: usize = 0;
    while i < 8
        invariant
            0 <= i <= 8,
            out@.len() == base.len() + i,
            out@.subrange(0, base.len() as int) == base,
            forall|k: int| 0 <= k < i ==> out@[base.len() + k] == u64_be_byte(w, k),
        decreases 8 - i,
    {
        let shift: u64 = ((7 - i) * 8) as u64;
        let b: u8 = (w >> shift) as u8;
        proof {
            assert(b == u64_be_byte(w, i as int));
        }
        out.push(b);
        proof {
            assert(out@.subrange(0, base.len() as int) =~= base);
        }
        i = i + 1;
    }
}

impl H256 {
    /// The 32 bytes of this word, big-endian.
    pub fn to_bytes(&self) -> (r: Vec<u8>)
        ensures
            r@ == h256_bytes(*self),
    {
        let mut out: Vec<u8> = Vec::new();
        push_u64_be(&mut out, self.w0);
        push_u64_be(&mut out, self.w1);
        push_u64_be(&mut out, self.w2);
        push_u64_be(&mut out, self.w3);
        proof {
            assert(out@ =~= h256_bytes(*self));
        }
        out
    }
}

} // verus!
