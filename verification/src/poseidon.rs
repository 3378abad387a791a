//! Poseidon hash provider.
//!
//! All three entry points of the outside cryptography crate — pairwise,
//! many-element, and single-element — are opaque primitives, each with its
//! own named result.

use vstd::prelude::*;

use crate::felt::Felt;
use crate::hash::be_value;
use crate::hash::felt_values;
use crate::hash::fe_from_felt;
use crate::hash::felt_from_fe;

verus! {

/// What the Poseidon pairwise hash returns, by field-element value. A
/// function of its two inputs alone; never spelled out here.
pub uninterp spec fn poseidon_of(a: int, b: int) -> int;

/// What the Poseidon many-element hash returns on a run of values. A
/// function of the run alone; never spelled out here.
pub uninterp spec fn poseidon_many_of(s: Seq<int>) -> int;

/// What the Poseidon single-element hash returns. A function of its input
/// alone; never spelled out here.
pub uninterp spec fn poseidon_single_of(a: int) -> int;

/// The Poseidon hasher.
#[derive(Clone, Copy, Debug, PartialEq, Eq, Structural)]
pub struct PoseidonHasher;

impl PoseidonHasher {
    /// Relies on `starknet_crypto::poseidon_hash`: the Poseidon pairwise
    /// hash of the two elements, itself a field element.
    #[verifier::external_body]
    pub fn hash_elements(a: Felt, b: Felt) -> (r: Felt)
        requires
            a.wf(),
            b.wf(),
        ensures
            r.value() == poseidon_of(a.value(), b.value()),
            r.wf(),
    {
        felt_from_fe(starknet_crypto::poseidon_hash(fe_from_felt(&a), fe_from_felt(&b)))
    }

    /// Relies on `starknet_crypto::poseidon_hash_many`: the Poseidon hash of
    /// the whole run, itself a field element.
    #[verifier::external_body]
    pub fn compute_hash_on_elements(elements: &Vec<Felt>) -> (r: Felt)
        requires
            forall|i: int| 0 <= i < elements@.len() ==> (#[trigger] elements@[i]).wf(),
        ensures
            r.value() == poseidon_many_of(felt_values(elements@)),
            r.wf(),
    {
        let fes: Vec<starknet_crypto::FieldElement> = elements.iter().map(fe_from_felt).collect();
        felt_from_fe(starknet_crypto::poseidon_hash_many(&fes))
    }

    /// The Poseidon hash over wrapped elements; with one element type in
    /// this library it is the many-element hash itself.
    pub fn compute_hash_on_wrappers(data: &Vec<Felt>) -> (r: Felt)
        requires
            forall|i: int| 0 <= i < data@.len() ==> (#[trigger] data@[i]).wf(),
        ensures
            r.value() == poseidon_many_of(felt_values(data@)),
            r.wf(),
    {
        PoseidonHasher::compute_hash_on_elements(data)
    }

    /// Relies on `FieldElement::from_byte_slice_be` and
    /// `starknet_crypto::poseidon_hash_single`: the single-element hash of
    /// the value read big-endian from `data`. At most 31 bytes, so the value
    /// always lies below the field prime.
    #[verifier::external_body]
    pub fn hash_bytes(data: &Vec<u8>) -> (r: Felt)
        requires
            data@.len() <= 31,
        ensures
            r.value() == poseidon_single_of(be_value(data@)),
            r.wf(),
    {
        let fe = starknet_crypto::FieldElement::from_byte_slice_be(data).unwrap();
        felt_from_fe(starknet_crypto::poseidon_hash_single(fe))
    }
}

} // verus!
