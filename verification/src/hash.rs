//! Shared plumbing for the hash providers: the outside field-element type,
//! conversions between it and the library's own [`Felt`], and the value of a
//! big-endian byte run.

use vstd::prelude::*;

use crate::felt::Felt;

verus! {

/// The outside cryptography crate's field-element type, opaque here; values
/// of it only pass through the trusted wrappers.
#[verifier::external_type_specification]
#[verifier::external_body]
pub struct ExFieldElement(starknet_crypto::FieldElement);

/// The big-endian integer value of a byte run.
pub open spec fn be_value(s: Seq<u8>) -> int
    decreases s.len(),
{
    if s.len() == 0 {
        0
    } else {
        be_value(s.drop_last()) * 256 + s.last()
    }
}

/// The integer values of a run of field elements.
pub open spec fn felt_values(s: Seq<Felt>) -> Seq<int> {
    s.map_values(|f: Felt| f.value())
}

/// Relies on `FieldElement::from_bytes_be`: builds the outside element with
/// the limbs' value, defined since a well-formed element lies below the
/// field prime.
#[verifier::external_body]
pub(crate) fn fe_from_felt(f: &Felt) -> starknet_crypto::FieldElement
    requires
        f.wf(),
{
    let mut b = [0u8; 32];
    b[0..8].copy_from_slice(&f.d3.to_be_bytes());
    b[8..16].copy_from_slice(&f.d2.to_be_bytes());
    b[16..24].copy_from_slice(&f.d1.to_be_bytes());
    b[24..32].copy_from_slice(&f.d0.to_be_bytes());
    starknet_crypto::FieldElement::from_bytes_be(&b).unwrap()
}

/// Relies on `FieldElement::to_bytes_be`: reads the outside element's value
/// back into the library's limbs.
#[verifier::external_body]
pub(crate) fn felt_from_fe(x: starknet_crypto::FieldElement) -> Felt {
    let b = x.to_bytes_be();
    Felt {
        d3: u64::from_be_bytes(b[0..8].try_into().unwrap()),
        d2: u64::from_be_bytes(b[8..16].try_into().unwrap()),
        d1: u64::from_be_bytes(b[16..24].try_into().unwrap()),
        d0: u64::from_be_bytes(b[24..32].try_into().unwrap()),
    }
}

} // verus!
