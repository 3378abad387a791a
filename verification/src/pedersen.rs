//! Pedersen hash provider.
//!
//! The pairwise hash itself is an opaque primitive of the outside
//! cryptography crate, named by [`pedersen_of`]; the chained hash over a run
//! of elements is the library's own verified loop over it.

use vstd::prelude::*;

use crate::felt::Felt;
use crate::felt::felt_from_u64;
use crate::hash::be_value;
use crate::hash::felt_values;
use crate::hash::fe_from_felt;
use crate::hash::felt_from_fe;

verus! {

/// What the Pedersen pairwise hash returns, by field-element value. A
/// function of its two inputs alone; never spelled out here.
pub uninterp spec fn pedersen_of(a: int, b: int) -> int;

/// The fold of the pairwise hash along a run of values.
pub open spec fn pedersen_chain(acc: int, s: Seq<int>) -> int
    decreases s.len(),
{
    if s.len() == 0 {
        acc
    } else {
        pedersen_chain(pedersen_of(acc, s[0]), s.skip(1))
    }
}

/// The chained Pedersen hash of a run:
/// `h(h(...h(h(0, s[0]), s[1])..., s[n-1]), n)`.
pub open spec fn spec_pedersen_on_elements(s: Seq<int>) -> int {
    pedersen_of(pedersen_chain(0, s), s.len() as int)
}

/// The Pedersen hasher.
#[derive(Clone, Copy, Debug, PartialEq, Eq, Structural)]
pub struct PedersenHasher;

impl PedersenHasher {
    /// Relies on `starknet_crypto::pedersen_hash`: the Pedersen pairwise
    /// hash of the two elements, itself a field element.
    #[verifier::external_body]
    pub fn hash_elements(a: Felt, b: Felt) -> (r: Felt)
        requires
            a.wf(),
            b.wf(),
        ensures
            r.value() == pedersen_of(a.value(), b.value()),
            r.wf(),
    {
        felt_from_fe(starknet_crypto::pedersen_hash(&fe_from_felt(&a), &fe_from_felt(&b)))
    }

    /// The chained Pedersen hash over a run of elements, with the run's
    /// length folded in last.
    pub fn compute_hash_on_elements(elements: &Vec<Felt>) -> (r: Felt)
        requires
            forall|i: int| 0 <= i < elements@.len() ==> (#[trigger] elements@[i]).wf(),
        ensures
            r.value() == spec_pedersen_on_elements(felt_values(elements@)),
            r.wf(),
    {
        let ghost vs = felt_values(elements@);
        proof {
            assert(vs.skip(0) =~= vs);
        }
        let mut acc: Felt = felt_from_u64(0);
        let mut i: usize = 0;
        while i < elements.len()
            invariant
                i <= elements@.len(),
                acc.wf(),
                vs == felt_values(elements@),
                vs.len() == elements@.len(),
                forall|k: int| 0 <= k < elements@.len() ==> (#[trigger] elements@[k]).wf(),
                pedersen_chain(0, vs) == pedersen_chain(acc.value(), vs.skip(i as int)),
            decreases elements@.len() - i,
        {
            proof {
                assert(vs.skip(i as int)[0] == vs[i as int]);
                assert(vs[i as int] == elements@[i as int].value());
                assert(vs.skip(i as int).skip(1) =~= vs.skip(i as int + 1));
            }
            acc = PedersenHasher::hash_elements(acc, elements[i]);
            i = i + 1;
        }
        proof {
            assert(vs.skip(vs.len() as int) =~= Seq::<int>::empty());
        }
        let n = felt_from_u64(elements.len() as u64);
        PedersenHasher::hash_elements(acc, n)
    }

    /// The chained Pedersen hash over wrapped elements; with one element
    /// type in this library it is the chained hash itself.
    pub fn compute_hash_on_wrappers(data: &Vec<Felt>) -> (r: Felt)
        requires
            forall|i: int| 0 <= i < data@.len() ==> (#[trigger] data@[i]).wf(),
        ensures
            r.value() == spec_pedersen_on_elements(felt_values(data@)),
            r.wf(),
    {
        PedersenHasher::compute_hash_on_elements(data)
    }

    /// Relies on `FieldElement::from_byte_slice_be` and
    /// `starknet_crypto::pedersen_hash`: the pairwise hash of zero and the
    /// value read big-endian from the first 31 bytes of `data` (31 bytes
    /// always lie below the field prime).
    #[verifier::external_body]
    pub fn hash_bytes(data: &Vec<u8>) -> (r: Felt)
        requires
            data@.len() >= 31,
        ensures
            r.value() == pedersen_of(0, be_value(data@.take(31))),
            r.wf(),
    {
        let fe = starknet_crypto::FieldElement::from_byte_slice_be(&data[..31]).unwrap();
        felt_from_fe(starknet_crypto::pedersen_hash(&starknet_crypto::FieldElement::ZERO, &fe))
    }
}

} // verus!
