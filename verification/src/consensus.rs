//! Consensus-gated block import.
//!
//! A candidate block is admitted to the inner import pipeline only after a
//! deterministic pre-check: its digest must carry exactly one protocol log,
//! and the parent-state commitment in that log must equal the expected one —
//! the zero digest for block 0, and a fixed one-way hash of the canonical
//! encoding of `N - 1` for block `N > 0` (a fixed stand-in rule rather than
//! real state-root chaining). [`check_block_import`] makes the whole decision; `Ok`
//! means delegate to the inner importer unchanged, any `Err` means reject
//! without invoking it.

use vstd::prelude::*;

verus! {

/// Digest-log discriminant of the protocol's own log entries.
pub const MADARA_ENGINE_ID: u64 = 0x6d616461;

/// A 256-bit state commitment, held as its 32 bytes.
#[derive(Clone, Debug, PartialEq, Eq)]
pub struct Commitment {
    pub bytes: Vec<u8>,
}

impl Commitment {
    /// Well-formed: exactly 32 bytes.
    pub open spec fn wf(self) -> bool {
        self.bytes@.len() == 32
    }

    /// An equal copy.
    pub fn copied(&self) -> (r: Commitment)
        ensures
            r.bytes@ == self.bytes@,
    {
        let mut bytes: Vec<u8> = Vec::new();
        let mut i: usize = 0;
        while i < self.bytes.len()
            invariant
                i <= self.bytes@.len(),
                bytes@ == self.bytes@.take(i as int),
            decreases self.bytes@.len() - i,
        {
            bytes.push(self.bytes[i]);
            proof {
                assert(bytes@ =~= self.bytes@.take(i as int + 1));
            }
            i = i + 1;
        }
        proof {
            assert(bytes@ =~= self.bytes@);
        }
        Commitment { bytes }
    }
}

/// The all-zero 32-byte commitment.
pub open spec fn zero_commitment_bytes() -> Seq<u8> {
    Seq::new(32, |i: int| 0u8)
}

/// Build the all-zero commitment.
pub fn zero_commitment() -> (r: Commitment)
    ensures
        r.bytes@ == zero_commitment_bytes(),
{
    let mut bytes: Vec<u8> = Vec::new();
    let mut i: usize = 0;
    while i < 32
        invariant
            i <= 32,
            bytes@.len() == i as int,
            forall|j: int| 0 <= j < i ==> bytes@[j] == 0u8,
        decreases 32 - i,
    {
        bytes.push(0u8);
        i = i + 1;
    }
    proof {
        assert(bytes@ =~= zero_commitment_bytes());
    }
    Commitment { bytes }
}

/// Byte-for-byte equality of two commitments.
pub fn commitment_eq(a: &Commitment, b: &Commitment) -> (r: bool)
    ensures
        r == (a.bytes@ == b.bytes@),
{
    if a.bytes.len() != b.bytes.len() {
        return false;
    }
    let mut i: usize = 0;
    while i < a.bytes.len()
        invariant
            i <= a.bytes@.len(),
            a.bytes@.len() == b.bytes@.len(),
            forall|j: int| 0 <= j < i ==> a.bytes@[j] == b.bytes@[j],
        decreases a.bytes@.len() - i,
    {
        if a.bytes[i] != b.bytes[i] {
            return false;
        }
        i = i + 1;
    }
    proof {
        assert(a.bytes@ =~= b.bytes@);
    }
    true
}

/// One entry of a block's digest: an opaque log matched by its engine
/// discriminant, carrying the parent block's state commitment when it is the
/// protocol's own entry.
#[derive(Clone, Debug, PartialEq, Eq)]
pub struct DigestLog {
    pub engine: u64,
    pub parent_block_state_commitment: Commitment,
}

/// Whether a digest entry is the protocol's own log.
pub open spec fn is_protocol_log(l: DigestLog) -> bool {
    l.engine == MADARA_ENGINE_ID
}

/// How many protocol logs a digest holds.
pub open spec fn spec_log_count(logs: Seq<DigestLog>) -> nat
    decreases logs.len(),
{
    if logs.len() == 0 {
        0
    } else {
        spec_log_count(logs.drop_last()) + if is_protocol_log(logs.last()) {
            1nat
        } else {
            0nat
        }
    }
}

/// A prefix never holds more protocol logs than the whole digest.
proof fn lemma_log_count_prefix(s: Seq<DigestLog>, k: int)
    requires
        0 <= k <= s.len(),
    ensures
        spec_log_count(s.take(k)) <= spec_log_count(s),
    decreases s.len(),
{
    if k < s.len() {
        lemma_log_count_prefix(s.drop_last(), k);
        assert(s.take(k) =~= s.drop_last().take(k));
    } else {
        assert(s.take(k) =~= s);
    }
}

/// Why a block was rejected by the import gate.
#[derive(Clone, Debug, PartialEq, Eq)]
pub enum Error {
    /// The digest holds two or more protocol logs.
    MultipleRuntimeLogs,
    /// The digest holds no protocol log.
    NoRuntimeLog,
    /// The one protocol log's commitment differs from the expected parent
    /// state commitment.
    InvalidParentBlockStateCommitment { block_number: u64, expected: Commitment, received: Commitment },
}

/// Scan a block's digest for exactly one protocol log and hand out its
/// commitment; zero matches and two-plus matches are distinct errors.
#[verifier::loop_isolation(false)]
pub fn find_post_log(digest: &Vec<DigestLog>) -> (r: Result<Commitment, Error>)
    ensures
        match r {
            Ok(c) => spec_log_count(digest@) == 1 && exists|i: int|
                0 <= i < digest@.len() && is_protocol_log(#[trigger] digest@[i])
                    && digest@[i].parent_block_state_commitment.bytes@ == c.bytes@,
            Err(Error::NoRuntimeLog) => spec_log_count(digest@) == 0,
            Err(Error::MultipleRuntimeLogs) => spec_log_count(digest@) >= 2,
            Err(_) => false,
        },
{
    let mut found: Option<usize> = None;
    let mut i: usize = 0;
    while i < digest.len()
        invariant
            i <= digest@.len(),
            match found {
                Some(j) => j < i && is_protocol_log(digest@[j as int]) && spec_log_count(
                    digest@.take(i as int),
                ) == 1,
                None => spec_log_count(digest@.take(i as int)) == 0,
            },
        decreases digest@.len() - i,
    {
        proof {
            assert(digest@.take(i as int + 1).drop_last() =~= digest@.take(i as int));
            assert(digest@.take(i as int + 1).last() == digest@[i as int]);
        }
        if digest[i].engine == MADARA_ENGINE_ID {
            if found.is_some() {
                proof {
                    lemma_log_count_prefix(digest@, i as int + 1);
                }
                return Err(Error::MultipleRuntimeLogs);
            }
            found = Some(i);
        }
        i = i + 1;
    }
    proof {
        assert(digest@.take(digest@.len() as int) =~= digest@);
    }
    match found {
        Some(j) => Ok(digest[j].parent_block_state_commitment.copied()),
        None => Err(Error::NoRuntimeLog),
    }
}


/// What `blake2_256` returns on a byte run. Deterministic in its input, so
/// it may be named; it is never spelled out here.
pub uninterp spec fn blake2_of(data: Seq<u8>) -> Seq<u8>;

/// Relies on `sp_crypto_hashing::blake2_256`: the 32-byte Blake2b digest of
/// the input, a function of the input bytes alone.
#[verifier::external_body]
fn blake2_256_bytes(data: &Vec<u8>) -> (r: Vec<u8>)
    ensures
        r@ == blake2_of(data@),
        r@.len() == 32,
{
    sp_crypto_hashing::blake2_256(data).to_vec()
}

/// The canonical encoding of a block number: its 32-byte little-endian
/// image, the low eight bytes carrying the number.
pub open spec fn spec_le_bytes_32(n: u64) -> Seq<u8> {
    Seq::new(32, |i: int| if i < 8 { (n >> (i * 8)) as u8 } else { 0u8 })
}

/// Build the canonical 32-byte little-endian encoding of a block number.
pub fn block_number_le_bytes(n: u64) -> (r: Vec<u8>)
    ensures
        r@ == spec_le_bytes_32(n),
{
    proof {
        assert(n >> 0 == n) by (bit_vector);
    }
    let mut bytes: Vec<u8> = Vec::new();
    bytes.push(n as u8);
    bytes.push((n >> 8) as u8);
    bytes.push((n >> 16) as u8);
    bytes.push((n >> 24) as u8);
    bytes.push((n >> 32) as u8);
    bytes.push((n >> 40) as u8);
    bytes.push((n >> 48) as u8);
    bytes.push((n >> 56) as u8);
    let mut i: usize = 8;
    while i < 32
        invariant
            8 <= i <= 32,
            bytes@.len() == i as int,
            forall|j: int| 8 <= j < i ==> bytes@[j] == 0u8,
            forall|j: int| 0 <= j < 8 ==> bytes@[j] == spec_le_bytes_32(n)[j],
        decreases 32 - i,
    {
        bytes.push(0u8);
        i = i + 1;
    }
    proof {
        assert(bytes@ =~= spec_le_bytes_32(n));
    }
    bytes
}

/// The required parent commitment for a block number.
pub open spec fn spec_expected_commitment(block_number: u64) -> Seq<u8> {
    if block_number == 0 {
        zero_commitment_bytes()
    } else {
        blake2_of(spec_le_bytes_32((block_number - 1) as u64))
    }
}

/// Compute the expected parent-state commitment for a block number.
pub fn expected_commitment(block_number: u64) -> (r: Commitment)
    ensures
        r.bytes@ == spec_expected_commitment(block_number),
{
    if block_number == 0 {
        zero_commitment()
    } else {
        let encoded = block_number_le_bytes(block_number - 1);
        Commitment { bytes: blake2_256_bytes(&encoded) }
    }
}

/// At block 0 the expected parent commitment is the zero digest.
pub proof fn lemma_block_zero_expects_zero()
    ensures
        spec_expected_commitment(0) == zero_commitment_bytes(),
{
}

/// Above block 0 the expected parent commitment is the one-way hash of the
/// canonical encoding of the previous block number.
pub proof fn lemma_block_n_expects_prev_hash(n: u64)
    requires
        n > 0,
    ensures
        spec_expected_commitment(n) == blake2_of(spec_le_bytes_32((n - 1) as u64)),
{
}

/// The whole import decision for one candidate block. `Ok` exactly when the
/// digest holds one protocol log whose commitment equals the expected parent
/// commitment; every `Err` names why, and means the inner importer is never
/// invoked. Holds no state: safe to call repeatedly and concurrently.
pub fn check_block_import(block_number: u64, digest: &Vec<DigestLog>) -> (r: Result<(), Error>)
    ensures
        match r {
            Ok(()) => spec_log_count(digest@) == 1 && exists|i: int|
                0 <= i < digest@.len() && is_protocol_log(#[trigger] digest@[i])
                    && digest@[i].parent_block_state_commitment.bytes@ == spec_expected_commitment(
                    block_number,
                ),
            Err(Error::NoRuntimeLog) => spec_log_count(digest@) == 0,
            Err(Error::MultipleRuntimeLogs) => spec_log_count(digest@) >= 2,
            Err(Error::InvalidParentBlockStateCommitment { block_number: bn, expected, received }) => bn
                == block_number && expected.bytes@ == spec_expected_commitment(block_number)
                && received.bytes@ != spec_expected_commitment(block_number) && spec_log_count(
                digest@,
            ) == 1 && exists|i: int|
                0 <= i < digest@.len() && is_protocol_log(#[trigger] digest@[i])
                    && digest@[i].parent_block_state_commitment.bytes@ == received.bytes@,
        },
{
    let received = match find_post_log(digest) {
        Ok(c) => c,
        Err(e) => {
            return Err(e);
        },
    };
    let expected = expected_commitment(block_number);
    if commitment_eq(&received, &expected) {
        Ok(())
    } else {
        Err(Error::InvalidParentBlockStateCommitment { block_number, expected, received })
    }
}


} // verus!
