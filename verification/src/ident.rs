//! Identifiers and amounts.
//!
//! Accounts and partitions are opaque 256-bit identifiers. The ledger only ever
//! compares them and uses them as keys, so each is held as two 128-bit words.

use vstd::prelude::*;
use crate::store::Word;

verus! {

/// A token amount.
pub type Balance = u128;

/// The identifier of an account: a holder, a controller, an operator or the owner.
#[derive(Clone, Copy, Debug, PartialEq, Eq, Structural)]
pub struct AccountId {
    pub hi: u128,
    pub lo: u128,
}

/// The identifier of a partition, or the digest of a document.
#[derive(Clone, Copy, Debug, PartialEq, Eq, Structural)]
pub struct Hash256 {
    pub hi: u128,
    pub lo: u128,
}

/// The number that `bytes` spell, most significant byte first.
pub open spec fn be_value(bytes: Seq<u8>) -> nat
    decreases bytes.len(),
{
    if bytes.len() == 0 {
        0
    } else {
        be_value(bytes.drop_last()) * 256 + bytes.last() as nat
    }
}

/// 256 to the power `n`.
pub open spec fn pow256(n: nat) -> nat
    decreases n,
{
    if n == 0 {
        1
    } else {
        256 * pow256((n - 1) as nat)
    }
}

/// A number spelt in `n` bytes is below 256 to the `n`.
pub proof fn lemma_be_value_bound(bytes: Seq<u8>)
    ensures
        be_value(bytes) < pow256(bytes.len()),
    decreases bytes.len(),
{
    if bytes.len() > 0 {
        lemma_be_value_bound(bytes.drop_last());
        let a = be_value(bytes.drop_last());
        let p = pow256((bytes.len() - 1) as nat);
        assert(a * 256 + 255 < 256 * p) by (nonlinear_arith)
            requires
                a < p,
        ;
    }
}

/// Sixteen bytes fit a `u128`.
pub proof fn lemma_pow256_16()
    ensures
        pow256(16) == 0x1_0000_0000_0000_0000_0000_0000_0000_0000,
{
    reveal_with_fuel(pow256, 17);
}

/// Reads sixteen bytes of `bytes`, from index `from` on, as one big-endian word.
pub fn word_at(bytes: &[u8; 32], from: usize) -> (w: u128)
    requires
        from + 16 <= 32,
    ensures
        w == be_value(bytes@.subrange(from as int, from + 16)),
{
    let mut acc: u128 = 0;
    let mut i: usize = 0;
    while i < 16
        invariant
            i <= 16,
            from + 16 <= 32,
            acc == be_value(bytes@.subrange(from as int, from + i)),
        decreases 16 - i,
    {
        let b: u8 = bytes[from + i];
        proof {
            let before = bytes@.subrange(from as int, from + i);
            let after = bytes@.subrange(from as int, from + i + 1);
            assert(after.drop_last() =~= before);
            assert(after.last() == b);
            lemma_be_value_bound(after);
            lemma_pow256_16();
            lemma_pow256_grows(after.len(), 16);
        }
        acc = acc * 256 + b as u128;
        i = i + 1;
    }
    acc
}

/// `pow256` does not shrink as its exponent grows.
pub proof fn lemma_pow256_grows(a: nat, b: nat)
    requires
        a <= b,
    ensures
        pow256(a) <= pow256(b),
    decreases b,
{
    if a < b {
        lemma_pow256_grows(a, (b - 1) as nat);
    }
}

/// A byte put in front counts for its value times 256 to the number of bytes
/// behind it.
pub proof fn lemma_be_value_prepend(b: u8, s: Seq<u8>)
    ensures
        be_value(seq![b] + s) == b as nat * pow256(s.len()) + be_value(s),
    decreases s.len(),
{
    let t = seq![b] + s;
    assert(be_value(t) == be_value(t.drop_last()) * 256 + t.last() as nat);
    if s.len() == 0 {
        assert(t.drop_last() =~= Seq::<u8>::empty());
        assert(t.last() == b);
        assert(be_value(t.drop_last()) == 0);
        assert(pow256(0) == 1);
        assert(be_value(s) == 0);
        assert(b as nat * 1 == b as nat) by (nonlinear_arith);
    } else {
        assert(t.drop_last() =~= seq![b] + s.drop_last());
        assert(t.last() == s.last());
        lemma_be_value_prepend(b, s.drop_last());
        let p = pow256((s.len() - 1) as nat);
        let x = be_value(s.drop_last());
        assert(pow256(s.len()) == 256 * p);
        assert(be_value(s) == x * 256 + s.last() as nat);
        assert(be_value(t.drop_last()) == b as nat * p + x);
        assert((b as nat * p + x) * 256 == b as nat * (256 * p) + x * 256) by (nonlinear_arith);
    }
}

/// Writes `w` into sixteen bytes of `out`, from index `from` on, most
/// significant byte first.
pub fn put_word(out: &mut [u8; 32], from: usize, w: u128)
    requires
        from + 16 <= 32,
    ensures
        be_value(final(out)@.subrange(from as int, from + 16)) == w,
        forall|j: int| 0 <= j < 32 && !(from <= j < from + 16) ==> final(out)@[j] == old(out)@[j],
{
    let mut v: u128 = w;
    let mut i: usize = 0;
    proof {
        assert(out@.subrange(from + 16, from + 16) =~= Seq::<u8>::empty());
        assert(pow256(0) == 1);
        assert(v * 1 == v) by (nonlinear_arith);
    }
    while i < 16
        invariant
            i <= 16,
            from + 16 <= 32,
            v * pow256(i as nat) + be_value(out@.subrange(from + 16 - i, from + 16)) == w,
            forall|j: int| 0 <= j < 32 && !(from <= j < from + 16) ==> out@[j] == old(out)@[j],
        decreases 16 - i,
    {
        let ghost behind = out@.subrange(from + 16 - i, from + 16);
        let ghost before = v;
        let b: u8 = (v % 256) as u8;
        out[from + 15 - i] = b;
        v = v / 256;
        proof {
            let now = out@.subrange(from + 15 - i, from + 16);
            assert(now =~= seq![b] + behind);
            lemma_be_value_prepend(b, behind);
            let p = pow256(i as nat);
            assert(before == v * 256 + b);
            assert((v * 256 + b) * p == v * (256 * p) + b * p) by (nonlinear_arith);
        }
        i = i + 1;
    }
    proof {
        lemma_pow256_16();
        let rest = be_value(out@.subrange(from as int, from + 16));
        assert(v == 0) by (nonlinear_arith)
            requires
                v * 0x1_0000_0000_0000_0000_0000_0000_0000_0000 + rest == w,
                w < 0x1_0000_0000_0000_0000_0000_0000_0000_0000,
                v >= 0,
                rest >= 0,
        ;
    }
}

impl AccountId {
    /// This identifier as a storage key.
    pub open spec fn key(self) -> Word {
        (self.hi, self.lo)
    }

    /// This identifier as a storage key.
    pub fn word(&self) -> (w: Word)
        ensures
            w == self.key(),
    {
        (self.hi, self.lo)
    }

    /// The identifier whose 32 bytes are `bytes`: the first sixteen make the
    /// high word, the last sixteen the low word, each big-endian.
    pub fn from_bytes(bytes: [u8; 32]) -> (id: AccountId)
        ensures
            id.hi == be_value(bytes@.subrange(0, 16)),
            id.lo == be_value(bytes@.subrange(16, 32)),
    {
        AccountId { hi: word_at(&bytes, 0), lo: word_at(&bytes, 16) }
    }

    /// The 32 bytes of this identifier: those that `from_bytes` reads it from.
    pub fn to_bytes(&self) -> (bytes: [u8; 32])
        ensures
            be_value(bytes@.subrange(0, 16)) == self.hi,
            be_value(bytes@.subrange(16, 32)) == self.lo,
    {
        let mut out = [0u8; 32];
        put_word(&mut out, 0, self.hi);
        let ghost high = out@.subrange(0, 16);
        put_word(&mut out, 16, self.lo);
        proof {
            assert(out@.subrange(0, 16) =~= high);
        }
        out
    }

    /// The identifier stored under `w`.
    pub fn of_word(w: Word) -> (id: AccountId)
        ensures
            id.key() == w,
    {
        AccountId { hi: w.0, lo: w.1 }
    }
}

impl Hash256 {
    /// This identifier as a storage key.
    pub open spec fn key(self) -> Word {
        (self.hi, self.lo)
    }

    /// This identifier as a storage key.
    pub fn word(&self) -> (w: Word)
        ensures
            w == self.key(),
    {
        (self.hi, self.lo)
    }

    /// The identifier whose 32 bytes are `bytes`: the first sixteen make the
    /// high word, the last sixteen the low word, each big-endian.
    pub fn from_bytes(bytes: [u8; 32]) -> (id: Hash256)
        ensures
            id.hi == be_value(bytes@.subrange(0, 16)),
            id.lo == be_value(bytes@.subrange(16, 32)),
    {
        Hash256 { hi: word_at(&bytes, 0), lo: word_at(&bytes, 16) }
    }

    /// The 32 bytes of this identifier: those that `from_bytes` reads it from.
    pub fn to_bytes(&self) -> (bytes: [u8; 32])
        ensures
            be_value(bytes@.subrange(0, 16)) == self.hi,
            be_value(bytes@.subrange(16, 32)) == self.lo,
    {
        let mut out = [0u8; 32];
        put_word(&mut out, 0, self.hi);
        let ghost high = out@.subrange(0, 16);
        put_word(&mut out, 16, self.lo);
        proof {
            assert(out@.subrange(0, 16) =~= high);
        }
        out
    }

    /// The identifier stored under `w`.
    pub fn of_word(w: Word) -> (id: Hash256)
        ensures
            id.key() == w,
    {
        Hash256 { hi: w.0, lo: w.1 }
    }
}

} // verus!
