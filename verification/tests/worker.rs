use madara_core::felt::felt_from_u64;
use madara_core::felt::Word256;
use madara_core::felt::PRIME_D3;
use madara_core::pedersen::PedersenHasher;
use madara_core::worker::build_transaction;
use madara_core::worker::parse_l1_event;
use madara_core::worker::process_l1_message;
use madara_core::worker::run_worker;
use madara_core::worker::validate_fee;
use madara_core::worker::Checkpoint;
use madara_core::worker::L1Event;
use madara_core::worker::L1MessagesWorkerError;
use madara_core::worker::StepOutcomes;

fn w(n: u64) -> Word256 {
    Word256::from_u64(n)
}

fn event(nonce: u64, fee: Word256, block: u64, index: u64) -> L1Event {
    L1Event {
        from_address: w(0x1111),
        to_address: w(0x2222),
        nonce: w(nonce),
        selector: w(0x3333),
        payload: vec![w(1), w(2)],
        fee,
        l1_block_number: block,
        log_index: index,
    }
}

fn all_ok(nonce_unused: bool) -> StepOutcomes {
    StepOutcomes {
        nonce_unused: Some(nonce_unused),
        chain_id: Some(felt_from_u64(0x534e)),
        convert_ok: true,
        submit_ok: true,
        store_ok: true,
    }
}

#[test]
fn fee_boundary_at_128_bits() {
    // 2^128 - 1: accepted
    let max_fee = Word256 { d0: u64::MAX, d1: u64::MAX, d2: 0, d3: 0 };
    assert_eq!(validate_fee(&max_fee), Ok(u128::MAX));
    let e = event(1, max_fee, 10, 0);
    let r = process_l1_message(&e, all_ok(true));
    let tx = r.submitted.expect("fee of 2^128 - 1 must be accepted");
    assert_eq!(tx.paid_fee_on_l1, u128::MAX);
    assert_eq!(r.error, None);

    // 2^128: rejected before any transaction is built
    let over_fee = Word256 { d0: 0, d1: 0, d2: 1, d3: 0 };
    assert_eq!(validate_fee(&over_fee), Err(L1MessagesWorkerError::ToFeeError));
    let e = event(1, over_fee, 10, 0);
    let r = process_l1_message(&e, all_ok(true));
    assert_eq!(r.submitted, None);
    assert_eq!(r.checkpoint, None);
    assert_eq!(r.error, Some(L1MessagesWorkerError::ToFeeError));
}

#[test]
fn used_nonce_is_a_silent_skip_that_advances_the_checkpoint() {
    let e = event(1, w(100), 7, 3);
    let r = process_l1_message(&e, all_ok(false));
    assert_eq!(r.submitted, None);
    assert_eq!(r.error, None);
    assert_eq!(r.checkpoint, Some(Checkpoint { block_number: 7, event_index: 3 }));
}

#[test]
fn duplicate_nonce_scenario() {
    // E1(nonce=1, fee=100), E2(nonce=1, fee=200), delivered in order; the
    // dedup oracle answers honestly against the applied-nonce set
    let e1 = event(1, w(100), 10, 0);
    let e2 = event(1, w(200), 10, 1);
    let events = vec![e1, e2];
    let outcomes = vec![all_ok(true), all_ok(false)];
    let start = Checkpoint { block_number: 0, event_index: 0 };
    let r = run_worker(start, &events, &outcomes);
    // E1 submitted; E2 skipped but the checkpoint still advanced to E2
    assert_eq!(r.submitted.len(), 1);
    assert_eq!(r.submitted[0].paid_fee_on_l1, 100);
    assert_eq!(r.submitted[0].message.nonce, felt_from_u64(1));
    assert_eq!(r.checkpoint, Checkpoint { block_number: 10, event_index: 1 });
}

#[test]
fn crash_between_submit_and_checkpoint_is_idempotent() {
    let e = event(42, w(100), 20, 5);
    let start = Checkpoint { block_number: 0, event_index: 0 };

    // first run: submission succeeds, the checkpoint write does not
    let mut crashing = all_ok(true);
    crashing.store_ok = false;
    let r1 = process_l1_message(&e, crashing);
    assert!(r1.submitted.is_some());
    assert_eq!(r1.checkpoint, None);
    assert_eq!(r1.error, Some(L1MessagesWorkerError::DatabaseError));

    // restart replays from the old checkpoint; the nonce is now applied, so
    // an honest dedup oracle answers false: no second submission
    let replay = run_worker(start, &vec![e], &vec![all_ok(false)]);
    assert_eq!(replay.submitted.len(), 0);
    assert_eq!(replay.checkpoint, Checkpoint { block_number: 20, event_index: 5 });
}

#[test]
fn oracle_failure_skips_without_checkpoint_advance() {
    let e = event(1, w(100), 10, 0);
    let mut oc = all_ok(true);
    oc.nonce_unused = None;
    let r = process_l1_message(&e, oc);
    assert_eq!(r.submitted, None);
    assert_eq!(r.checkpoint, None);
    assert_eq!(r.error, Some(L1MessagesWorkerError::RuntimeApiError));

    let mut oc = all_ok(true);
    oc.chain_id = None;
    let r = process_l1_message(&e, oc);
    assert_eq!(r.error, Some(L1MessagesWorkerError::RuntimeApiError));
    assert_eq!(r.checkpoint, None);
}

#[test]
fn conversion_and_submission_failures_do_not_advance_the_checkpoint() {
    let e = event(1, w(100), 10, 0);
    let mut oc = all_ok(true);
    oc.convert_ok = false;
    let r = process_l1_message(&e, oc);
    assert_eq!(r.submitted, None);
    assert_eq!(r.checkpoint, None);
    assert_eq!(r.error, Some(L1MessagesWorkerError::ConvertTransactionRuntimeApiError));

    let mut oc = all_ok(true);
    oc.submit_ok = false;
    let r = process_l1_message(&e, oc);
    assert_eq!(r.submitted, None);
    assert_eq!(r.checkpoint, None);
    assert_eq!(r.error, Some(L1MessagesWorkerError::SubmitTxError));
}

#[test]
fn out_of_field_nonce_is_a_parse_error() {
    // d3 * 2^192 + 1 equals the field prime exactly: one past the largest felt
    let prime = Word256 { d0: 1, d1: 0, d2: 0, d3: PRIME_D3 };
    let mut e = event(1, w(100), 10, 0);
    e.nonce = prime;
    assert_eq!(parse_l1_event(&e), Err(L1MessagesWorkerError::ToTransactionError));
    let r = process_l1_message(&e, all_ok(true));
    assert_eq!(r.submitted, None);
    assert_eq!(r.checkpoint, None);
    assert_eq!(r.error, Some(L1MessagesWorkerError::ToTransactionError));
}

#[test]
fn successful_pass_submits_once_and_advances() {
    let e = event(9, w(100), 33, 2);
    let r = process_l1_message(&e, all_ok(true));
    let tx = r.submitted.expect("fresh nonce with healthy collaborators must submit");
    assert_eq!(tx.message.nonce, felt_from_u64(9));
    assert_eq!(r.checkpoint, Some(Checkpoint { block_number: 33, event_index: 2 }));
    assert_eq!(r.error, None);
}

#[test]
fn transaction_hash_is_the_chained_hash_bound_to_the_chain_id() {
    let e = event(9, w(100), 33, 2);
    let message = parse_l1_event(&e).unwrap();
    let chain_id = felt_from_u64(0x534e);
    let tx = build_transaction(message.clone(), chain_id, 100);
    assert_eq!(tx.message, message);
    let payload_hash = PedersenHasher::compute_hash_on_elements(&message.payload);
    let fields = vec![
        message.from_address,
        message.to_address,
        message.nonce,
        message.selector,
        payload_hash,
        chain_id,
    ];
    assert_eq!(tx.tx_hash, PedersenHasher::compute_hash_on_elements(&fields));
    // a different chain id gives a different hash
    let other = build_transaction(message.clone(), felt_from_u64(0x534f), 100);
    assert_ne!(other.tx_hash, tx.tx_hash);
}

#[test]
fn checkpoint_tracks_only_passes_that_advance() {
    let e1 = event(1, w(100), 5, 0);
    let e2 = event(2, w(100), 5, 1);
    let e3 = event(3, w(100), 6, 0);
    let mut failed_submit = all_ok(true);
    failed_submit.submit_ok = false;
    let start = Checkpoint { block_number: 0, event_index: 0 };
    let r = run_worker(start, &vec![e1, e2, e3], &vec![all_ok(true), failed_submit, all_ok(true)]);
    // the failed submission neither submits nor moves the checkpoint; the
    // passes around it do, and the checkpoint never rewinds
    assert_eq!(r.submitted.len(), 2);
    assert_eq!(r.checkpoint, Checkpoint { block_number: 6, event_index: 0 });
}
