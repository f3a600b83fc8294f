//! Fixed-width values of the account state: 256-bit integers, 256-bit words
//! (hashes and storage slots) and 160-bit addresses.
use vstd::prelude::*;
use sha3::{Digest, Keccak256};

verus! {

/// 2^128, the weight of the high half of a 256-bit value.
pub open spec fn half_base() -> nat {
    u128::MAX as nat + 1
}

/// A 256-bit unsigned integer, held as its high and low 128-bit halves.
#[derive(Clone, Copy, Debug, PartialEq, Eq, Structural)]
pub struct Uint256 {
    pub hi: u128,
    pub lo: u128,
}

impl Uint256 {
    pub open spec fn value(self) -> nat {
        self.hi as nat * half_base() + self.lo as nat
    }

    pub fn zero() -> (r: Uint256)
        ensures
            r.value() == 0,
            r.hi == 0 && r.lo == 0,
    {
        Uint256 { hi: 0, lo: 0 }
    }

    pub fn from_u128(x: u128) -> (r: Uint256)
        ensures
            r.value() == x,
    {
        Uint256 { hi: 0, lo: x }
    }

    pub fn is_zero(&self) -> (r: bool)
        ensures
            r == (self.value() == 0),
    {
        proof {
            lemma_value_zero(*self);
        }
        self.hi == 0 && self.lo == 0
    }

    /// Whether `self` is strictly below `other`.
    pub fn lt(&self, other: &Uint256) -> (r: bool)
        ensures
            r == (self.value() < other.value()),
    {
        proof {
            lemma_value_order(*self, *other);
            lemma_value_order(*other, *self);
        }
        self.hi < other.hi || (self.hi == other.hi && self.lo < other.lo)
    }

    /// `self - other`, where `other` is strictly below `self`.
    pub fn sub_below(&self, other: &Uint256) -> (r: Uint256)
        requires
            other.value() < self.value(),
        ensures
            r.value() == self.value() - other.value(),
    {
        proof {
            lemma_value_order(*self, *other);
            lemma_value_order(*other, *self);
        }
        if self.lo >= other.lo {
            let r = Uint256 { hi: self.hi - other.hi, lo: self.lo - other.lo };
            proof {
                let b = half_base();
                assert((self.hi - other.hi) as nat * b == self.hi as nat * b - other.hi as nat * b)
                    by (nonlinear_arith)
                    requires
                        self.hi >= other.hi,
                ;
            }
            r
        } else {
            let r = Uint256 { hi: self.hi - other.hi - 1, lo: (u128::MAX - other.lo) + self.lo + 1 };
            proof {
                let b = half_base();
                assert((self.hi - other.hi - 1) as nat * b == self.hi as nat * b - other.hi as nat
                    * b - b) by (nonlinear_arith)
                    requires
                        self.hi >= other.hi + 1,
                ;
            }
            r
        }
    }
}

pub proof fn lemma_value_zero(x: Uint256)
    ensures
        x.value() == 0 <==> (x.hi == 0 && x.lo == 0),
{
    assert(x.hi as nat * half_base() >= 0) by (nonlinear_arith);
    if x.hi > 0 {
        assert(x.hi as nat * half_base() >= half_base()) by (nonlinear_arith)
            requires
                x.hi > 0,
        ;
    }
}

/// The order of values follows the order of the halves, high half first.
pub proof fn lemma_value_order(x: Uint256, y: Uint256)
    ensures
        x.hi < y.hi ==> x.value() < y.value(),
        x.hi == y.hi ==> (x.value() < y.value() <==> x.lo < y.lo),
{
    let b = half_base();
    if x.hi < y.hi {
        assert(x.hi as nat * b + b <= y.hi as nat * b) by (nonlinear_arith)
            requires
                x.hi < y.hi,
        ;
    }
}

/// A 256-bit word: a hash, a storage key or a storage value. `hi` holds the
/// first sixteen bytes in big-endian order, `lo` the last sixteen.
#[derive(Clone, Copy, Debug, PartialEq, Eq, Structural)]
pub struct Hash256 {
    pub hi: u128,
    pub lo: u128,
}

impl Hash256 {
    pub open spec fn spec_is_zero(self) -> bool {
        self.hi == 0 && self.lo == 0
    }

    /// The all-zero word.
    pub fn zero() -> (r: Hash256)
        ensures
            r.spec_is_zero(),
    {
        Hash256 { hi: 0, lo: 0 }
    }

    pub fn is_zero(&self) -> (r: bool)
        ensures
            r == self.spec_is_zero(),
    {
        self.hi == 0 && self.lo == 0
    }
}

/// The all-zero word, in specifications.
pub open spec fn zero_hash() -> Hash256 {
    Hash256 { hi: 0, lo: 0 }
}

/// A 160-bit account address: `hi` holds the first four bytes, `lo` the last
/// sixteen, both big-endian.
#[derive(Clone, Copy, Debug, PartialEq, Eq, Structural)]
pub struct Address {
    pub hi: u32,
    pub lo: u128,
}

/// The Keccak-256 digest of a byte sequence.
pub uninterp spec fn keccak256_of(data: Seq<u8>) -> Hash256;

/// Relies on sha3's `Keccak256::digest`: the 32-byte Keccak-256 digest of
/// `data`, which depends on the bytes alone.
#[verifier::external_body]
pub(crate) fn keccak256(data: &[u8]) -> (r: Hash256)
    ensures
        r == keccak256_of(data@),
{
    let d = Keccak256::digest(data);
    let mut hi = [0u8; 16];
    let mut lo = [0u8; 16];
    hi.copy_from_slice(&d[..16]);
    lo.copy_from_slice(&d[16..]);
    Hash256 { hi: u128::from_be_bytes(hi), lo: u128::from_be_bytes(lo) }
}

} // verus!
