use madara_core::felt::eth_address_from_felt;
use madara_core::felt::felt_from_u64;
use madara_core::felt::felt_from_word;
use madara_core::felt::Felt;
use madara_core::felt::Word256;
use madara_core::felt::PRIME_D3;
use madara_core::pedersen::PedersenHasher;
use madara_core::poseidon::PoseidonHasher;

fn f(n: u64) -> Felt {
    felt_from_u64(n)
}

#[test]
fn pedersen_pairwise_is_deterministic_and_not_identity() {
    let a = f(314);
    let b = f(159);
    let h = PedersenHasher::hash_elements(a, b);
    assert_eq!(h, PedersenHasher::hash_elements(a, b));
    assert_ne!(h, a);
    assert_ne!(h, b);
    assert_ne!(h, PedersenHasher::hash_elements(b, a));
}

#[test]
fn pedersen_chain_matches_its_formula() {
    // h(0, 0) for the empty run: the chain starts at zero and folds in the
    // length last
    let empty: Vec<Felt> = Vec::new();
    assert_eq!(
        PedersenHasher::compute_hash_on_elements(&empty),
        PedersenHasher::hash_elements(f(0), f(0))
    );
    // one element: h(h(0, x), 1)
    let one = vec![f(77)];
    assert_eq!(
        PedersenHasher::compute_hash_on_elements(&one),
        PedersenHasher::hash_elements(PedersenHasher::hash_elements(f(0), f(77)), f(1))
    );
    // wrappers carry the same elements
    assert_eq!(
        PedersenHasher::compute_hash_on_wrappers(&one),
        PedersenHasher::compute_hash_on_elements(&one)
    );
}

#[test]
fn pedersen_hash_bytes_reads_first_31_bytes_big_endian() {
    // 31 bytes ending in 7 denote the value 7; the 32nd byte is ignored
    let mut data = vec![0u8; 30];
    data.push(7);
    data.push(255);
    assert_eq!(data.len(), 32);
    let h = PedersenHasher::hash_bytes(&data);
    assert_eq!(h, PedersenHasher::hash_elements(f(0), f(7)));
}

#[test]
fn poseidon_pairwise_is_deterministic_and_not_identity() {
    let a = f(314);
    let b = f(159);
    let h = PoseidonHasher::hash_elements(a, b);
    assert_eq!(h, PoseidonHasher::hash_elements(a, b));
    assert_ne!(h, a);
    assert_ne!(h, b);
    assert_ne!(h, PoseidonHasher::hash_elements(b, a));
    // the two hash families differ
    assert_ne!(h, PedersenHasher::hash_elements(a, b));
}

#[test]
fn poseidon_many_depends_on_every_element() {
    let xs = vec![f(1), f(2), f(3)];
    let ys = vec![f(1), f(2), f(4)];
    let hx = PoseidonHasher::compute_hash_on_elements(&xs);
    assert_eq!(hx, PoseidonHasher::compute_hash_on_elements(&xs));
    assert_ne!(hx, PoseidonHasher::compute_hash_on_elements(&ys));
    assert_eq!(hx, PoseidonHasher::compute_hash_on_wrappers(&xs));
    assert_ne!(hx, xs[0]);
}

#[test]
fn poseidon_hash_bytes_reads_value_big_endian() {
    let data = vec![1u8, 0u8];
    let h = PoseidonHasher::hash_bytes(&data);
    assert_eq!(h, PoseidonHasher::hash_bytes(&vec![0u8, 1u8, 0u8]));
    assert_ne!(h, PoseidonHasher::hash_bytes(&vec![0u8, 0u8, 1u8]));
    assert_ne!(h, f(256));
}

#[test]
fn field_bounds_are_checked() {
    // the largest felt: prime - 1
    let largest = Word256 { d0: 0, d1: 0, d2: 0, d3: PRIME_D3 };
    assert!(felt_from_word(&largest).is_some());
    // the prime itself is out
    let prime = Word256 { d0: 1, d1: 0, d2: 0, d3: PRIME_D3 };
    assert!(felt_from_word(&prime).is_none());
    // 2^160 - 1 is an address, 2^160 is not
    let edge = Felt { d0: u64::MAX, d1: u64::MAX, d2: 0xFFFFFFFF, d3: 0 };
    assert!(eth_address_from_felt(edge).is_some());
    let over = Felt { d0: 0, d1: 0, d2: 0x100000000, d3: 0 };
    assert!(eth_address_from_felt(over).is_none());
}
