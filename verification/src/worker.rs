//! Settlement-chain message ingestion worker.
//!
//! The worker turns every new bridging event into exactly one submitted
//! rollup transaction, resumably across restarts. The shell around the
//! library owns the event subscription, the oracles and the pool; what each
//! of those interactions yielded arrives here as a [`StepOutcomes`] value,
//! and the whole per-event policy — validation, dedup, conversion,
//! submission, checkpoint advance — is decided by [`process_l1_message`] and
//! replayed over a delivered run by [`run_worker`].
//!
//! The checkpoint-advance asymmetry is deliberate and kept exactly: a
//! duplicate-nonce skip advances the checkpoint, a failed submission does
//! not. Idempotency across restarts rests on nonce dedup, not on the
//! checkpoint; [`lemma_replay_is_idempotent`] states it.

use vstd::prelude::*;

use crate::codec::MessageL1ToL2;
use crate::codec::MessageL1ToL2View;
use crate::felt::Felt;
use crate::felt::Word256;
use crate::felt::felt_from_word;
use crate::felt::spec_felt_of_word;
use crate::felt::stark_prime;
use crate::hash::felt_values;
use crate::pedersen::PedersenHasher;
use crate::pedersen::spec_pedersen_on_elements;

verus! {

/// A raw bridging event as delivered from the settlement chain, with its
/// position metadata.
#[derive(Clone, Debug, PartialEq, Eq)]
pub struct L1Event {
    pub from_address: Word256,
    pub to_address: Word256,
    pub nonce: Word256,
    pub selector: Word256,
    pub payload: Vec<Word256>,
    pub fee: Word256,
    pub l1_block_number: u64,
    pub log_index: u64,
}

/// The persisted watermark: the last settlement-chain position the worker
/// has fully passed through. Created once as `(0, 0)` and replaced
/// atomically; on restart the worker resumes its subscription from here.
#[derive(Clone, Copy, Debug, PartialEq, Eq, Structural)]
pub struct Checkpoint {
    pub block_number: u64,
    pub event_index: u64,
}

/// Per-event, non-fatal failures of one pass of the worker loop.
#[derive(Clone, Copy, Debug, PartialEq, Eq, Structural)]
pub enum L1MessagesWorkerError {
    /// The event's fee does not fit in 128 bits.
    ToFeeError,
    /// The raw event's fields do not parse into a protocol message.
    ToTransactionError,
    /// The dedup or chain-id oracle failed.
    RuntimeApiError,
    /// The conversion oracle failed.
    ConvertTransactionRuntimeApiError,
    /// The pool rejected the submission.
    SubmitTxError,
    /// The checkpoint store rejected the write.
    DatabaseError,
}

/// A protocol transaction derived from one event: the parsed message, the
/// chain-bound transaction hash, and the fee paid on the settlement chain.
#[derive(Clone, Debug, PartialEq, Eq)]
pub struct L1HandlerTransaction {
    pub message: MessageL1ToL2,
    pub tx_hash: Felt,
    pub paid_fee_on_l1: u128,
}

/// Whether a raw word lies in the field.
pub open spec fn spec_word_in_field(w: Word256) -> bool {
    w.value() < stark_prime()
}

/// Whether every field of the raw event parses into the field.
pub open spec fn spec_event_parses(e: L1Event) -> bool {
    spec_word_in_field(e.from_address) && spec_word_in_field(e.to_address) && spec_word_in_field(
        e.nonce,
    ) && spec_word_in_field(e.selector) && forall|i: int|
        0 <= i < e.payload@.len() ==> spec_word_in_field(#[trigger] e.payload@[i])
}

/// The message a parsable event denotes.
pub open spec fn spec_parsed_message(e: L1Event) -> MessageL1ToL2View {
    MessageL1ToL2View {
        from_address: spec_felt_of_word(e.from_address),
        to_address: spec_felt_of_word(e.to_address),
        nonce: spec_felt_of_word(e.nonce),
        selector: spec_felt_of_word(e.selector),
        payload: e.payload@.map_values(|w: Word256| spec_felt_of_word(w)),
    }
}

/// All of a message's elements lie in the field.
pub open spec fn spec_message_wf(m: MessageL1ToL2View) -> bool {
    m.from_address.wf() && m.to_address.wf() && m.nonce.wf() && m.selector.wf() && forall|i: int|
        0 <= i < m.payload.len() ==> (#[trigger] m.payload[i]).wf()
}

/// Step 1 of the loop: a fee wider than 128 bits is rejected per-event,
/// before any transaction is built.
pub fn validate_fee(fee: &Word256) -> (r: Result<u128, L1MessagesWorkerError>)
    ensures
        match r {
            Ok(f) => fee.fits_u128() && f as int == fee.value(),
            Err(e) => e == L1MessagesWorkerError::ToFeeError && !fee.fits_u128(),
        },
{
    if fee.d2 == 0 && fee.d3 == 0 {
        Ok(fee.low_u128())
    } else {
        Err(L1MessagesWorkerError::ToFeeError)
    }
}

/// Step 2 of the loop: parse the raw event into the protocol message; any
/// field outside the field of values is a per-event parse error.
#[verifier::loop_isolation(false)]
pub fn parse_l1_event(event: &L1Event) -> (r: Result<MessageL1ToL2, L1MessagesWorkerError>)
    ensures
        match r {
            Ok(m) => spec_event_parses(*event) && m.deep_view() == spec_parsed_message(*event)
                && spec_message_wf(m.deep_view()),
            Err(e) => e == L1MessagesWorkerError::ToTransactionError && !spec_event_parses(*event),
        },
{
    let from_address = match felt_from_word(&event.from_address) {
        Some(f) => f,
        None => {
            return Err(L1MessagesWorkerError::ToTransactionError);
        },
    };
    let to_address = match felt_from_word(&event.to_address) {
        Some(f) => f,
        None => {
            return Err(L1MessagesWorkerError::ToTransactionError);
        },
    };
    let nonce = match felt_from_word(&event.nonce) {
        Some(f) => f,
        None => {
            return Err(L1MessagesWorkerError::ToTransactionError);
        },
    };
    let selector = match felt_from_word(&event.selector) {
        Some(f) => f,
        None => {
            return Err(L1MessagesWorkerError::ToTransactionError);
        },
    };
    let mut payload: Vec<Felt> = Vec::new();
    let mut i: usize = 0;
    while i < event.payload.len()
        invariant
            i <= event.payload@.len(),
            payload@.len() == i as int,
            forall|j: int| 0 <= j < i ==> #[trigger] payload@[j] == spec_felt_of_word(
                event.payload@[j],
            ),
            forall|j: int| 0 <= j < i ==> spec_word_in_field(#[trigger] event.payload@[j]),
            forall|j: int| 0 <= j < i ==> (#[trigger] payload@[j]).wf(),
        decreases event.payload@.len() - i,
    {
        let f = match felt_from_word(&event.payload[i]) {
            Some(f) => f,
            None => {
                return Err(L1MessagesWorkerError::ToTransactionError);
            },
        };
        payload.push(f);
        i = i + 1;
    }
    proof {
        assert(payload@ =~= event.payload@.map_values(|w: Word256| spec_felt_of_word(w)));
    }
    Ok(MessageL1ToL2 { from_address, to_address, nonce, selector, payload })
}

/// The transaction hash bound to the chain id: the chained Pedersen hash
/// over the message's scalar fields, the chained hash of its payload, and
/// the chain id, in that order.
pub open spec fn spec_tx_hash(m: MessageL1ToL2View, chain_id: Felt) -> int {
    spec_pedersen_on_elements(
        seq![
            m.from_address.value(),
            m.to_address.value(),
            m.nonce.value(),
            m.selector.value(),
            spec_pedersen_on_elements(felt_values(m.payload)),
            chain_id.value(),
        ],
    )
}

/// Step 4 of the loop: compute the chain-bound transaction hash and build
/// the protocol transaction.
pub fn build_transaction(message: MessageL1ToL2, chain_id: Felt, paid_fee_on_l1: u128) -> (r:
    L1HandlerTransaction)
    requires
        spec_message_wf(message.deep_view()),
        chain_id.wf(),
    ensures
        r.message == message,
        r.paid_fee_on_l1 == paid_fee_on_l1,
        r.tx_hash.value() == spec_tx_hash(message.deep_view(), chain_id),
        r.tx_hash.wf(),
{
    proof {
        assert forall|i: int|
            0 <= i < message.payload@.len() implies (#[trigger] message.payload@[i]).wf() by {
            assert(message.deep_view().payload[i].wf());
        };
    }
    let payload_hash = PedersenHasher::compute_hash_on_elements(&message.payload);
    let mut fields: Vec<Felt> = Vec::new();
    fields.push(message.from_address);
    fields.push(message.to_address);
    fields.push(message.nonce);
    fields.push(message.selector);
    fields.push(payload_hash);
    fields.push(chain_id);
    proof {
        assert(felt_values(fields@) =~= seq![
            message.from_address.value(),
            message.to_address.value(),
            message.nonce.value(),
            message.selector.value(),
            payload_hash.value(),
            chain_id.value(),
        ]);
        assert(forall|i: int| 0 <= i < fields@.len() ==> (#[trigger] fields@[i]).wf());
    }
    let tx_hash = PedersenHasher::compute_hash_on_elements(&fields);
    L1HandlerTransaction { message, tx_hash, paid_fee_on_l1 }
}

/// What the shell's interactions around one event yielded, one field per
/// collaborator, in loop order. `None` on an oracle means the query itself
/// failed.
#[derive(Clone, Copy, Debug, PartialEq, Eq)]
pub struct StepOutcomes {
    /// Dedup oracle: `Some(true)` if the nonce is unused, `Some(false)` if
    /// already applied, `None` on oracle failure.
    pub nonce_unused: Option<bool>,
    /// Chain-id oracle: the rollup chain's id, `None` on oracle failure.
    pub chain_id: Option<Felt>,
    /// Whether the conversion oracle produced a submittable form.
    pub convert_ok: bool,
    /// Whether the pool accepted the submission.
    pub submit_ok: bool,
    /// Whether the checkpoint store accepted the write.
    pub store_ok: bool,
}

/// What one pass of the loop did with its event.
#[derive(Clone, Debug, PartialEq, Eq)]
pub struct StepResult {
    /// The transaction submitted to the pool, if this pass submitted one.
    pub submitted: Option<L1HandlerTransaction>,
    /// The checkpoint persisted by this pass, if any.
    pub checkpoint: Option<Checkpoint>,
    /// The per-event error, if any; never fatal to the worker.
    pub error: Option<L1MessagesWorkerError>,
}

/// When a pass submits its event's transaction: the fee fits, the event
/// parses, the nonce is fresh, and the chain-id, conversion and pool
/// interactions all succeed.
pub open spec fn spec_submits(e: L1Event, oc: StepOutcomes) -> bool {
    e.fee.fits_u128() && spec_event_parses(e) && oc.nonce_unused == Some(true) && oc.chain_id
        is Some && oc.convert_ok && oc.submit_ok
}

/// When a pass persists a new checkpoint: after a successful submission, or
/// on a duplicate-nonce skip — and in both cases only if the store accepts
/// the write. A failed submission never advances the checkpoint.
pub open spec fn spec_advances_checkpoint(e: L1Event, oc: StepOutcomes) -> bool {
    (spec_submits(e, oc) && oc.store_ok) || (e.fee.fits_u128() && spec_event_parses(e)
        && oc.nonce_unused == Some(false) && oc.store_ok)
}

/// The per-event error a pass reports, in the order the loop checks.
pub open spec fn spec_step_error(e: L1Event, oc: StepOutcomes) -> Option<L1MessagesWorkerError> {
    if !e.fee.fits_u128() {
        Some(L1MessagesWorkerError::ToFeeError)
    } else if !spec_event_parses(e) {
        Some(L1MessagesWorkerError::ToTransactionError)
    } else if oc.nonce_unused is None {
        Some(L1MessagesWorkerError::RuntimeApiError)
    } else if oc.nonce_unused == Some(false) {
        if oc.store_ok {
            None
        } else {
            Some(L1MessagesWorkerError::DatabaseError)
        }
    } else if oc.chain_id is None {
        Some(L1MessagesWorkerError::RuntimeApiError)
    } else if !oc.convert_ok {
        Some(L1MessagesWorkerError::ConvertTransactionRuntimeApiError)
    } else if !oc.submit_ok {
        Some(L1MessagesWorkerError::SubmitTxError)
    } else if !oc.store_ok {
        Some(L1MessagesWorkerError::DatabaseError)
    } else {
        None
    }
}

/// One pass of the worker loop over one event, with every collaborator
/// interaction's outcome given. Exactly one transaction is submitted when
/// [`spec_submits`] holds; the checkpoint moves exactly when
/// [`spec_advances_checkpoint`] holds, and then to the event's own
/// coordinates; the reported error is exactly [`spec_step_error`].
pub fn process_l1_message(event: &L1Event, outcomes: StepOutcomes) -> (r: StepResult)
    requires
        outcomes.chain_id matches Some(c) ==> c.wf(),
    ensures
        (r.submitted is Some) <==> spec_submits(*event, outcomes),
        r.submitted matches Some(tx) ==> tx.message.deep_view() == spec_parsed_message(*event)
            && tx.paid_fee_on_l1 as int == event.fee.value() && tx.tx_hash.value() == spec_tx_hash(
            spec_parsed_message(*event),
            outcomes.chain_id->Some_0,
        ),
        (r.checkpoint is Some) <==> spec_advances_checkpoint(*event, outcomes),
        r.checkpoint matches Some(cp) ==> cp.block_number == event.l1_block_number
            && cp.event_index == event.log_index,
        r.error == spec_step_error(*event, outcomes),
{
    let paid_fee_on_l1 = match validate_fee(&event.fee) {
        Ok(f) => f,
        Err(e) => {
            return StepResult { submitted: None, checkpoint: None, error: Some(e) };
        },
    };
    let message = match parse_l1_event(event) {
        Ok(m) => m,
        Err(e) => {
            return StepResult { submitted: None, checkpoint: None, error: Some(e) };
        },
    };
    let nonce_unused = match outcomes.nonce_unused {
        Some(b) => b,
        None => {
            return StepResult {
                submitted: None,
                checkpoint: None,
                error: Some(L1MessagesWorkerError::RuntimeApiError),
            };
        },
    };
    let checkpoint = Checkpoint {
        block_number: event.l1_block_number,
        event_index: event.log_index,
    };
    if !nonce_unused {
        // Already applied previously: skip silently, but advance the
        // checkpoint past this event.
        if outcomes.store_ok {
            return StepResult { submitted: None, checkpoint: Some(checkpoint), error: None };
        } else {
            return StepResult {
                submitted: None,
                checkpoint: None,
                error: Some(L1MessagesWorkerError::DatabaseError),
            };
        }
    }
    let chain_id = match outcomes.chain_id {
        Some(c) => c,
        None => {
            return StepResult {
                submitted: None,
                checkpoint: None,
                error: Some(L1MessagesWorkerError::RuntimeApiError),
            };
        },
    };
    let tx = build_transaction(message, chain_id, paid_fee_on_l1);
    if !outcomes.convert_ok {
        return StepResult {
            submitted: None,
            checkpoint: None,
            error: Some(L1MessagesWorkerError::ConvertTransactionRuntimeApiError),
        };
    }
    if !outcomes.submit_ok {
        return StepResult {
            submitted: None,
            checkpoint: None,
            error: Some(L1MessagesWorkerError::SubmitTxError),
        };
    }
    if !outcomes.store_ok {
        // Submitted, but the watermark write failed: the next run may
        // redeliver this event; nonce dedup keeps it applied once.
        return StepResult {
            submitted: Some(tx),
            checkpoint: None,
            error: Some(L1MessagesWorkerError::DatabaseError),
        };
    }
    StepResult { submitted: Some(tx), checkpoint: Some(checkpoint), error: None }
}


/// The result of one worker run over a finite delivered sequence.
#[derive(Clone, Debug, PartialEq, Eq)]
pub struct RunResult {
    /// The checkpoint after the run.
    pub checkpoint: Checkpoint,
    /// Every transaction the run submitted, in delivery order.
    pub submitted: Vec<L1HandlerTransaction>,
}

/// The checkpoint after the first `i` events of a run.
pub open spec fn spec_run_checkpoint(
    start: Checkpoint,
    events: Seq<L1Event>,
    outcomes: Seq<StepOutcomes>,
    i: int,
) -> Checkpoint
    decreases i,
{
    if i <= 0 {
        start
    } else {
        let prev = spec_run_checkpoint(start, events, outcomes, i - 1);
        if spec_advances_checkpoint(events[i - 1], outcomes[i - 1]) {
            Checkpoint {
                block_number: events[i - 1].l1_block_number,
                event_index: events[i - 1].log_index,
            }
        } else {
            prev
        }
    }
}

/// The messages submitted by the first `i` events of a run, in order.
pub open spec fn spec_run_submitted(
    events: Seq<L1Event>,
    outcomes: Seq<StepOutcomes>,
    i: int,
) -> Seq<MessageL1ToL2View>
    decreases i,
{
    if i <= 0 {
        Seq::empty()
    } else {
        let prev = spec_run_submitted(events, outcomes, i - 1);
        if spec_submits(events[i - 1], outcomes[i - 1]) {
            prev.push(spec_parsed_message(events[i - 1]))
        } else {
            prev
        }
    }
}

/// Drive one finite run of delivered events through the per-event pass,
/// strictly in delivery order, one at a time, threading the checkpoint
/// exactly as the per-event policy says. The shell around the library owns
/// the subscription and performs the oracle, pool and store interactions;
/// their outcomes arrive here one [`StepOutcomes`] per event.
#[verifier::loop_isolation(false)]
pub fn run_worker(start: Checkpoint, events: &Vec<L1Event>, outcomes: &Vec<StepOutcomes>) -> (r:
    RunResult)
    requires
        events@.len() == outcomes@.len(),
        forall|i: int|
            0 <= i < outcomes@.len() ==> ((#[trigger] outcomes@[i]).chain_id matches Some(c)
                ==> c.wf()),
    ensures
        r.checkpoint == spec_run_checkpoint(start, events@, outcomes@, events@.len() as int),
        r.submitted@.map_values(|t: L1HandlerTransaction| t.message.deep_view())
            == spec_run_submitted(events@, outcomes@, events@.len() as int),
{
    let mut checkpoint = start;
    let mut submitted: Vec<L1HandlerTransaction> = Vec::new();
    proof {
        assert(submitted@.map_values(|t: L1HandlerTransaction| t.message.deep_view())
            =~= spec_run_submitted(events@, outcomes@, 0));
    }
    let mut i: usize = 0;
    while i < events.len()
        invariant
            i <= events@.len(),
            checkpoint == spec_run_checkpoint(start, events@, outcomes@, i as int),
            submitted@.map_values(|t: L1HandlerTransaction| t.message.deep_view())
                == spec_run_submitted(events@, outcomes@, i as int),
        decreases events@.len() - i,
    {
        let step = process_l1_message(&events[i], outcomes[i]);
        if let Some(tx) = step.submitted {
            submitted.push(tx);
        }
        if let Some(cp) = step.checkpoint {
            checkpoint = cp;
        }
        proof {
            assert(submitted@.map_values(|t: L1HandlerTransaction| t.message.deep_view())
                =~= spec_run_submitted(events@, outcomes@, i as int + 1));
        }
        i = i + 1;
    }
    RunResult { checkpoint, submitted }
}

// ------------------------------------------------------------------
// Laws of the per-event policy.
// ------------------------------------------------------------------

/// The limb test for 128 bits is exactly the value bound.
pub proof fn lemma_word_fits_u128(w: Word256)
    ensures
        w.fits_u128() <==> w.value() < 0x100000000000000000000000000000000int,
{
    if !w.fits_u128() {
        if w.d3 >= 1 {
            assert(w.d3 as int * 0x1000000000000000000000000000000000000000000000000int
                >= 0x1000000000000000000000000000000000000000000000000int) by (nonlinear_arith)
                requires
                    w.d3 >= 1,
            ;
        } else {
            assert(w.d2 as int * 0x100000000000000000000000000000000int
                >= 0x100000000000000000000000000000000int) by (nonlinear_arith)
                requires
                    w.d2 >= 1,
            ;
        }
    }
}

/// A fee of `2^128` or more is rejected before any transaction is built,
/// and nothing else is reported for it; a smaller fee is never the reason a
/// pass fails.
pub proof fn lemma_fee_boundary(e: L1Event, oc: StepOutcomes)
    ensures
        e.fee.value() >= 0x100000000000000000000000000000000int ==> !spec_submits(e, oc)
            && spec_step_error(e, oc) == Some(L1MessagesWorkerError::ToFeeError),
        e.fee.value() < 0x100000000000000000000000000000000int ==> spec_step_error(e, oc) != Some(
            L1MessagesWorkerError::ToFeeError,
        ),
{
    lemma_word_fits_u128(e.fee);
}

/// A duplicate nonce is a no-op: the pass submits nothing and reports no
/// error; only the checkpoint moves, and it does move.
pub proof fn lemma_duplicate_nonce_is_noop(e: L1Event, oc: StepOutcomes)
    requires
        oc.nonce_unused == Some(false),
    ensures
        !spec_submits(e, oc),
        e.fee.fits_u128() && spec_event_parses(e) && oc.store_ok ==> spec_step_error(e, oc)
            is None && spec_advances_checkpoint(e, oc),
{
}

/// What an honest dedup oracle answers: exactly whether the event's nonce
/// lies outside the set of nonces already applied on the rollup chain.
pub open spec fn spec_oracle_consistent(applied: Set<int>, e: L1Event, oc: StepOutcomes) -> bool {
    oc.nonce_unused matches Some(b) ==> b == !applied.contains(spec_felt_of_word(e.nonce).value())
}

/// Replaying an already-applied event cannot apply it twice. After a crash
/// between a successful submission and the checkpoint write, the event is
/// redelivered from the old checkpoint; under an honest dedup oracle its
/// nonce is now in the applied set, so no pass ever submits it again —
/// whatever the other outcomes. Idempotency rests on nonce dedup, not on
/// the checkpoint.
pub proof fn lemma_replay_is_idempotent(applied: Set<int>, e: L1Event, oc: StepOutcomes)
    requires
        spec_oracle_consistent(applied, e, oc),
        applied.contains(spec_felt_of_word(e.nonce).value()),
    ensures
        !spec_submits(e, oc),
{
}



/// The coordinates an event advances the checkpoint to.
pub open spec fn spec_event_checkpoint(e: L1Event) -> Checkpoint {
    Checkpoint { block_number: e.l1_block_number, event_index: e.log_index }
}

/// Checkpoint order: by settlement-chain block number, then by event index.
pub open spec fn spec_cp_le(a: Checkpoint, b: Checkpoint) -> bool {
    a.block_number < b.block_number || (a.block_number == b.block_number && a.event_index
        <= b.event_index)
}

/// After any number of passes the checkpoint is the starting one or some
/// processed event's own coordinates.
proof fn lemma_checkpoint_origin(
    start: Checkpoint,
    events: Seq<L1Event>,
    outcomes: Seq<StepOutcomes>,
    i: int,
)
    requires
        0 <= i <= events.len(),
    ensures
        spec_run_checkpoint(start, events, outcomes, i) == start || exists|k: int|
            0 <= k < i && spec_run_checkpoint(start, events, outcomes, i)
                == spec_event_checkpoint(#[trigger] events[k]),
    decreases i,
{
    if i > 0 {
        lemma_checkpoint_origin(start, events, outcomes, i - 1);
        if spec_advances_checkpoint(events[i - 1], outcomes[i - 1]) {
            assert(spec_run_checkpoint(start, events, outcomes, i) == spec_event_checkpoint(
                events[i - 1],
            ));
        }
    }
}

/// The checkpoint never rewinds under normal operation: when every delivered
/// event's coordinates lie at or above the starting checkpoint and delivery
/// is in coordinate order, each pass leaves the checkpoint no lower than the
/// pass before it.
pub proof fn lemma_checkpoint_never_rewinds(
    start: Checkpoint,
    events: Seq<L1Event>,
    outcomes: Seq<StepOutcomes>,
    i: int,
)
    requires
        0 <= i < events.len(),
        events.len() == outcomes.len(),
        forall|k: int|
            0 <= k < events.len() ==> spec_cp_le(
                start,
                spec_event_checkpoint(#[trigger] events[k]),
            ),
        forall|k1: int, k2: int|
            0 <= k1 <= k2 < events.len() ==> spec_cp_le(
                spec_event_checkpoint(events[k1]),
                spec_event_checkpoint(events[k2]),
            ),
    ensures
        spec_cp_le(
            spec_run_checkpoint(start, events, outcomes, i),
            spec_run_checkpoint(start, events, outcomes, i + 1),
        ),
{
    if spec_advances_checkpoint(events[i], outcomes[i]) {
        lemma_checkpoint_origin(start, events, outcomes, i);
        let before = spec_run_checkpoint(start, events, outcomes, i);
        if before != start {
            let k = choose|k: int|
                0 <= k < i && before == spec_event_checkpoint(#[trigger] events[k]);
            assert(spec_cp_le(spec_event_checkpoint(events[k]), spec_event_checkpoint(events[i])));
        }
    }
}


} // verus!
