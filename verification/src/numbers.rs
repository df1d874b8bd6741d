//! 256-bit identifiers (block hashes, accounts, public keys) held as two 128-bit halves.

use vstd::prelude::*;

verus! {

/// A 256-bit value such as a block hash, an account or a public key.
/// `hi` holds the 16 most significant bytes (big-endian), `lo` the 16 least significant.
#[derive(Clone, Copy, Debug, PartialEq, Eq, Structural, Hash)]
pub struct Hash256 {
    pub hi: u128,
    pub lo: u128,
}

/// A block hash.
pub type BlockHash = Hash256;

/// An account (the public key of its owner).
pub type Account = Hash256;

/// The public key of a representative.
pub type PublicKey = Hash256;

/// A block hash or an account, depending on context.
pub type HashOrAccount = Hash256;

/// The root of a block: the previous block's hash, or the account for open blocks.
pub type Root = Hash256;

impl Hash256 {
    /// The numeric value the 32 bytes stand for.
    pub open spec fn value(self) -> int {
        self.hi * 0x1_0000_0000_0000_0000_0000_0000_0000_0000int + self.lo
    }

    pub open spec fn is_zero_spec(self) -> bool {
        self.hi == 0 && self.lo == 0
    }

    /// Byte-wise (big-endian numeric) order.
    pub open spec fn spec_lt(self, other: Self) -> bool {
        self.hi < other.hi || (self.hi == other.hi && self.lo < other.lo)
    }

    pub fn new(hi: u128, lo: u128) -> (r: Self)
        ensures
            r.hi == hi,
            r.lo == lo,
    {
        Hash256 { hi, lo }
    }

    /// The value zero.
    pub fn zero() -> (r: Self)
        ensures
            r.value() == 0,
            r.hi == 0 && r.lo == 0,
    {
        Hash256 { hi: 0, lo: 0 }
    }

    /// The hash holding the given small number.
    pub fn from_u128(n: u128) -> (r: Self)
        ensures
            r.value() == n,
            r.hi == 0 && r.lo == n,
    {
        Hash256 { hi: 0, lo: n }
    }

    pub fn is_zero(&self) -> (r: bool)
        ensures
            r == (self.hi == 0 && self.lo == 0),
    {
        self.hi == 0 && self.lo == 0
    }

    pub fn equals(&self, other: &Self) -> (r: bool)
        ensures
            r == (*self == *other),
    {
        self.hi == other.hi && self.lo == other.lo
    }

    /// Strictly smaller in byte-wise order.
    pub fn less_than(&self, other: &Self) -> (r: bool)
        ensures
            r == self.spec_lt(*other),
    {
        self.hi < other.hi || (self.hi == other.hi && self.lo < other.lo)
    }
}


/// A block's root together with its previous block's hash; identifies an election.
#[derive(Clone, Copy, Debug, PartialEq, Eq, Structural, Hash)]
pub struct QualifiedRoot {
    pub root: Root,
    pub previous: BlockHash,
}

impl QualifiedRoot {
    pub fn new(root: Root, previous: BlockHash) -> (r: Self)
        ensures
            r.root == root,
            r.previous == previous,
    {
        QualifiedRoot { root, previous }
    }

    pub fn equals(&self, other: &Self) -> (r: bool)
        ensures
            r == (*self == *other),
    {
        self.root.equals(&other.root) && self.previous.equals(&other.previous)
    }
}

/// Byte-wise order agrees with the numeric value.
pub proof fn lemma_lt_is_numeric(a: Hash256, b: Hash256)
    ensures
        a.spec_lt(b) <==> a.value() < b.value(),
        a == b <==> a.value() == b.value(),
{
    let m = 0x1_0000_0000_0000_0000_0000_0000_0000_0000int;
    assert(a.value() == a.hi * m + a.lo);
    assert(b.value() == b.hi * m + b.lo);
    if a.hi < b.hi {
        assert(a.hi * m + m <= b.hi * m) by (nonlinear_arith)
            requires a.hi < b.hi, m > 0;
    } else if a.hi > b.hi {
        assert(b.hi * m + m <= a.hi * m) by (nonlinear_arith)
            requires a.hi > b.hi, m > 0;
    }
}

} // verus!
