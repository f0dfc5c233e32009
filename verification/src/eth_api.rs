//! What the swap factory contract on Ethereum shows of a swap.

use vstd::prelude::*;

verus! {

/// A 256-bit unsigned number, as the contract counts: `hi * 2^128 + lo`.
#[derive(Debug, Clone, Copy, PartialEq, Eq, Structural)]
pub struct U256 {
    pub hi: u128,
    pub lo: u128,
}

/// A swap as the contract records it. For a preimage hash that the
/// contract does not know, every field is zero.
#[derive(Debug, Clone, Copy)]
pub struct Swap {
    /// The identifier by which the contract knows the swap.
    pub id: U256,
    /// The amount locked, in wei.
    pub value: U256,
    /// SHA-256 of the preimage that releases the amount.
    pub preimage_hash: [u8; 32],
    /// The preimage, once the seller claimed; zero until then.
    pub preimage: [u8; 32],
}

/// A `Swap` as a mathematical value.
pub struct SwapView {
    pub id: U256,
    pub value: U256,
    pub preimage_hash: Seq<u8>,
    pub preimage: Seq<u8>,
}

impl View for Swap {
    type V = SwapView;

    open spec fn view(&self) -> SwapView {
        SwapView {
            id: self.id,
            value: self.value,
            preimage_hash: self.preimage_hash@,
            preimage: self.preimage@,
        }
    }
}

impl U256 {
    /// The number as a mathematical integer.
    pub open spec fn value(self) -> nat {
        (self.hi * 0x1_0000_0000_0000_0000_0000_0000_0000_0000 + self.lo) as nat
    }

    /// The 256-bit form of a 128-bit number.
    pub fn from_u128(n: u128) -> (r: U256)
        ensures
            r.value() == n,
    {
        U256 { hi: 0, lo: n }
    }

    /// Whether the number is `n`.
    pub fn equals_u128(&self, n: u128) -> (r: bool)
        ensures
            r == (self.value() == n),
    {
        self.hi == 0 && self.lo == n
    }

    /// Whether the number is less than `n`.
    pub fn below_u128(&self, n: u128) -> (r: bool)
        ensures
            r == (self.value() < n),
    {
        self.hi == 0 && self.lo < n
    }
}

/// Thirty-two zero bytes: the preimage that was not revealed yet.
pub open spec fn zero32() -> Seq<u8> {
    Seq::new(32, |i: int| 0u8)
}

/// Whether all thirty-two bytes are zero.
pub fn is_zero32(bytes: &[u8; 32]) -> (r: bool)
    ensures
        r == (bytes@ == zero32()),
{
    let mut i: usize = 0;
    while i < 32
        invariant
            i <= 32,
            forall|j: int| 0 <= j < i ==> bytes@[j] == 0,
        decreases 32 - i,
    {
        if bytes[i] != 0 {
            assert(bytes@[i as int] != zero32()[i as int]);
            return false;
        }
        i += 1;
    }
    assert(bytes@ =~= zero32());
    true
}

impl Swap {
    /// Whether the seller has claimed, so that the preimage is public.
    pub fn is_claimed(&self) -> (r: bool)
        ensures
            r == (self.preimage@ != zero32()),
    {
        !is_zero32(&self.preimage)
    }
}

} // verus!
