//! Field-sized words: addresses, storage keys, class hashes and storage
//! values are all 256-bit words held as two 128-bit halves.

use vstd::prelude::*;

verus! {

/// A 256-bit word, most significant half first.
#[derive(Clone, Copy, Debug, PartialEq, Eq, Hash, Structural)]
pub struct Felt {
    pub high: u128,
    pub low: u128,
}

/// Address of a deployed contract.
pub type ContractAddress = Felt;

/// Key of one storage cell inside a contract.
pub type StorageKey = Felt;

/// Hash that names a contract class.
pub type ClassHash = Felt;

/// Hash of the compiled form of a class.
pub type CompiledClassHash = Felt;

/// Two to the power 128.
pub open spec fn pow2_128() -> int {
    0x1_0000_0000_0000_0000_0000_0000_0000_0000int
}

impl Felt {
    /// The number this word stands for.
    pub open spec fn value(self) -> nat {
        (self.high as int * pow2_128() + self.low as int) as nat
    }

    /// The word whose number is zero.
    pub fn zero() -> (r: Felt)
        ensures
            r == (Felt { high: 0, low: 0 }),
            r.value() == 0,
    {
        Felt { high: 0, low: 0 }
    }

    /// The word for a number that fits in 128 bits.
    pub fn from_u128(x: u128) -> (r: Felt)
        ensures
            r == (Felt { high: 0, low: x }),
            r.value() == x,
    {
        Felt { high: 0, low: x }
    }

    /// Whether the word is zero.
    pub fn is_zero(&self) -> (r: bool)
        ensures
            r == (self.value() == 0),
            r == (*self == Felt { high: 0, low: 0 }),
    {
        self.high == 0 && self.low == 0
    }

    /// The next word, or `None` at the largest one.
    pub open spec fn spec_checked_next(self) -> Option<Felt> {
        if self.low < u128::MAX {
            Some(Felt { high: self.high, low: (self.low + 1) as u128 })
        } else if self.high < u128::MAX {
            Some(Felt { high: (self.high + 1) as u128, low: 0 })
        } else {
            None
        }
    }

    /// The next word, or `None` at the largest one.
    pub fn checked_next(&self) -> (r: Option<Felt>)
        ensures
            r == self.spec_checked_next(),
            match r {
                Some(n) => n.value() == self.value() + 1,
                None => self.high == u128::MAX && self.low == u128::MAX,
            },
    {
        if self.low < u128::MAX {
            Some(Felt { high: self.high, low: self.low + 1 })
        } else if self.high < u128::MAX {
            Some(Felt { high: self.high + 1, low: 0 })
        } else {
            None
        }
    }
}

/// Two words with the same number are the same word.
pub proof fn lemma_value_injective(a: Felt, b: Felt)
    requires
        a.value() == b.value(),
    ensures
        a == b,
{
    assert(a.high as int * pow2_128() + a.low as int == b.high as int * pow2_128() + b.low as int);
    if a.high < b.high {
        assert((b.high as int - a.high as int) * pow2_128() >= pow2_128()) by (nonlinear_arith)
            requires
                b.high as int - a.high as int >= 1,
        ;
        assert(b.high as int * pow2_128() - a.high as int * pow2_128() == (b.high as int
            - a.high as int) * pow2_128()) by (nonlinear_arith);
    } else if b.high < a.high {
        assert((a.high as int - b.high as int) * pow2_128() >= pow2_128()) by (nonlinear_arith)
            requires
                a.high as int - b.high as int >= 1,
        ;
        assert(a.high as int * pow2_128() - b.high as int * pow2_128() == (a.high as int
            - b.high as int) * pow2_128()) by (nonlinear_arith);
    }
}

} // verus!
