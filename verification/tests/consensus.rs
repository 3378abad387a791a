use madara_core::consensus::check_block_import;
use madara_core::consensus::expected_commitment;
use madara_core::consensus::find_post_log;
use madara_core::consensus::zero_commitment;
use madara_core::consensus::Commitment;
use madara_core::consensus::DigestLog;
use madara_core::consensus::Error;
use madara_core::consensus::MADARA_ENGINE_ID;

fn protocol_log(commitment: Commitment) -> DigestLog {
    DigestLog { engine: MADARA_ENGINE_ID, parent_block_state_commitment: commitment }
}

fn other_log() -> DigestLog {
    DigestLog { engine: 0xdead, parent_block_state_commitment: zero_commitment() }
}

#[test]
fn block_zero_accepts_exactly_zero_commitment() {
    let digest = vec![other_log(), protocol_log(zero_commitment()), other_log()];
    assert_eq!(check_block_import(0, &digest), Ok(()));

    let mut wrong = zero_commitment();
    wrong.bytes[31] = 1;
    let digest = vec![protocol_log(wrong.clone())];
    assert_eq!(
        check_block_import(0, &digest),
        Err(Error::InvalidParentBlockStateCommitment {
            block_number: 0,
            expected: zero_commitment(),
            received: wrong,
        })
    );
}

#[test]
fn block_n_expects_hash_of_previous_number() {
    let expected = expected_commitment(5);
    let digest = vec![protocol_log(expected.clone())];
    assert_eq!(check_block_import(5, &digest), Ok(()));

    let wrong = expected_commitment(4);
    assert_ne!(wrong, expected);
    let digest = vec![protocol_log(wrong.clone())];
    assert_eq!(
        check_block_import(5, &digest),
        Err(Error::InvalidParentBlockStateCommitment {
            block_number: 5,
            expected,
            received: wrong,
        })
    );
}

#[test]
fn missing_log_rejects_without_commitment_check() {
    let digest: Vec<DigestLog> = vec![other_log(), other_log()];
    assert_eq!(check_block_import(3, &digest), Err(Error::NoRuntimeLog));
    assert_eq!(check_block_import(0, &Vec::new()), Err(Error::NoRuntimeLog));
}

#[test]
fn multiple_logs_reject_without_commitment_check() {
    // even two logs both carrying the right commitment are rejected
    let right = expected_commitment(9);
    let digest = vec![protocol_log(right.clone()), other_log(), protocol_log(right)];
    assert_eq!(check_block_import(9, &digest), Err(Error::MultipleRuntimeLogs));
}

#[test]
fn find_post_log_picks_the_single_match() {
    let c = expected_commitment(2);
    let digest = vec![other_log(), protocol_log(c.clone())];
    assert_eq!(find_post_log(&digest), Ok(c));
}

#[test]
fn expected_commitment_is_deterministic_and_nontrivial() {
    let a = expected_commitment(1);
    let b = expected_commitment(1);
    assert_eq!(a, b);
    assert_eq!(a.bytes.len(), 32);
    // the hash differs from its input (the 32-byte encoding of 0) and from
    // the zero digest
    assert_ne!(a.bytes, madara_core::consensus::block_number_le_bytes(0));
    assert_ne!(a, zero_commitment());
    // and depends on the block number
    assert_ne!(expected_commitment(1), expected_commitment(2));
}
