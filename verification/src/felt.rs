//! Field elements and raw 256-bit words.
//!
//! A [`Felt`] is the atomic unit of the codec: a value of the protocol's
//! finite field, held as four 64-bit limbs. A [`Word256`] is a raw 256-bit
//! settlement-chain word, which may or may not fit in the field.

use vstd::prelude::*;

verus! {

/// The high limb of the field prime `2^251 + 17 * 2^192 + 1`.
pub const PRIME_D3: u64 = 0x800000000000011;

/// The field prime `2^251 + 17 * 2^192 + 1`.
pub open spec fn stark_prime() -> int {
    0x800000000000011000000000000000000000000000000000000000000000001int
}

/// One element of the protocol's finite field, held as four 64-bit limbs in
/// little-endian limb order (`d0` is least significant).
///
/// A well-formed element lies strictly below [`stark_prime`].
#[derive(Clone, Copy, Debug, PartialEq, Eq, Hash, Structural)]
pub struct Felt {
    pub d0: u64,
    pub d1: u64,
    pub d2: u64,
    pub d3: u64,
}

/// A raw 256-bit word as delivered by the settlement chain, held as four
/// 64-bit limbs in little-endian limb order. Unlike [`Felt`], any value is
/// representable.
#[derive(Clone, Copy, Debug, PartialEq, Eq, Structural)]
pub struct Word256 {
    pub d0: u64,
    pub d1: u64,
    pub d2: u64,
    pub d3: u64,
}

impl Felt {
    /// The integer this element denotes.
    pub open spec fn value(self) -> int {
        self.d0 as int
            + self.d1 as int * 0x10000000000000000
            + self.d2 as int * 0x100000000000000000000000000000000int
            + self.d3 as int * 0x1000000000000000000000000000000000000000000000000int
    }

    /// Well-formed: the value lies below the field prime.
    pub open spec fn wf(self) -> bool {
        self.value() < stark_prime()
    }

    /// The value fits in a `u64`.
    pub open spec fn fits_u64(self) -> bool {
        self.d1 == 0 && self.d2 == 0 && self.d3 == 0
    }

    /// The value fits in 160 bits, the width of a settlement-chain address.
    pub open spec fn fits_eth_address(self) -> bool {
        self.value() < 0x10000000000000000000000000000000000000000int
    }

    /// The `u64` value, if the element fits in one.
    pub fn try_to_u64(&self) -> (r: Option<u64>)
        ensures
            match r {
                Some(n) => self.fits_u64() && n as int == self.value(),
                None => !self.fits_u64(),
            },
    {
        if self.d1 == 0 && self.d2 == 0 && self.d3 == 0 {
            Some(self.d0)
        } else {
            None
        }
    }
}

impl Word256 {
    /// The integer this word denotes.
    pub open spec fn value(self) -> int {
        self.d0 as int
            + self.d1 as int * 0x10000000000000000
            + self.d2 as int * 0x100000000000000000000000000000000int
            + self.d3 as int * 0x1000000000000000000000000000000000000000000000000int
    }

    /// The value fits in 128 bits.
    pub open spec fn fits_u128(self) -> bool {
        self.d2 == 0 && self.d3 == 0
    }

    /// The low 128 bits of the word.
    pub fn low_u128(&self) -> (r: u128)
        ensures
            r as int == self.d0 as int + self.d1 as int * 0x10000000000000000,
            self.fits_u128() ==> r as int == self.value(),
    {
        self.d0 as u128 + self.d1 as u128 * 0x10000000000000000u128
    }

    /// Build a word from a `u64`.
    pub fn from_u64(n: u64) -> (r: Word256)
        ensures
            r.value() == n as int,
            r.fits_u128(),
    {
        Word256 { d0: n, d1: 0, d2: 0, d3: 0 }
    }
}

/// The field element denoting `n`.
pub open spec fn spec_felt_of_u64(n: u64) -> Felt {
    Felt { d0: n, d1: 0, d2: 0, d3: 0 }
}

/// The field element with a raw word's limbs.
pub open spec fn spec_felt_of_word(w: Word256) -> Felt {
    Felt { d0: w.d0, d1: w.d1, d2: w.d2, d3: w.d3 }
}

/// Build the field element denoting `n`. Every `u64` lies below the prime.
pub fn felt_from_u64(n: u64) -> (r: Felt)
    ensures
        r == spec_felt_of_u64(n),
        r.value() == n as int,
        r.wf(),
        r.fits_u64(),
{
    Felt { d0: n, d1: 0, d2: 0, d3: 0 }
}

/// Cast a raw settlement-chain word into the field: succeeds exactly when the
/// word's value lies below the field prime, and preserves the value.
pub fn felt_from_word(w: &Word256) -> (r: Option<Felt>)
    ensures
        match r {
            Some(f) => w.value() < stark_prime() && f == spec_felt_of_word(*w) && f.value()
                == w.value() && f.wf(),
            None => w.value() >= stark_prime(),
        },
{
    let in_range: bool = if w.d3 < PRIME_D3 {
        true
    } else if w.d3 == PRIME_D3 {
        w.d2 == 0 && w.d1 == 0 && w.d0 == 0
    } else {
        false
    };
    if in_range {
        Some(Felt { d0: w.d0, d1: w.d1, d2: w.d2, d3: w.d3 })
    } else {
        None
    }
}

/// A settlement-chain address: a field element that fits in 160 bits.
#[derive(Clone, Copy, Debug, PartialEq, Eq, Structural)]
pub struct EthAddress {
    pub felt: Felt,
}

impl EthAddress {
    /// Well-formed: the carried element fits in 160 bits.
    pub open spec fn wf(self) -> bool {
        self.felt.fits_eth_address()
    }
}

/// Narrow a field element to a settlement-chain address: succeeds exactly
/// when the value fits in 160 bits.
pub fn eth_address_from_felt(f: Felt) -> (r: Option<EthAddress>)
    ensures
        match r {
            Some(a) => f.fits_eth_address() && a.felt == f && a.wf(),
            None => !f.fits_eth_address(),
        },
{
    if f.d3 == 0 && f.d2 < 0x100000000 {
        Some(EthAddress { felt: f })
    } else {
        proof {
            if f.d3 >= 1 {
                assert(f.d3 as int * 0x1000000000000000000000000000000000000000000000000int
                    >= 0x1000000000000000000000000000000000000000000000000int) by (nonlinear_arith)
                    requires f.d3 >= 1;
            } else {
                assert(f.d2 as int * 0x100000000000000000000000000000000int
                    >= 0x100000000 * 0x100000000000000000000000000000000int) by (nonlinear_arith)
                    requires f.d2 >= 0x100000000;
            }
        }
        None
    }
}

/// Widen a settlement-chain address back to a field element.
pub fn eth_address_to_felt(a: &EthAddress) -> (r: Felt)
    ensures
        r == a.felt,
{
    a.felt
}

} // verus!
