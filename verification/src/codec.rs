//! Canonical felt codec: a deterministic, self-describing mapping between
//! structured records and flat sequences of field elements.
//!
//! Scalars occupy one element. Every sequence is written with a leading
//! header equal to one more than its element count, and is decoded through a
//! bounded segment sized by that header. Composite records write their fields
//! in a fixed, documented order.
//!
//! The binding round-trip law `decode(encode(x)) == x` is stated and proved
//! by the public lemmas at the bottom of this module.

use vstd::prelude::*;

use crate::felt::Felt;
use crate::felt::EthAddress;
use crate::felt::spec_felt_of_u64;
use crate::felt::felt_from_u64;
use crate::felt::eth_address_from_felt;
use crate::felt::eth_address_to_felt;
use crate::felt_reader::FeltReader;
use crate::felt_reader::FeltReaderError;
use crate::felt_reader::spec_read_segment;

verus! {

impl DeepView for Felt {
    type V = Felt;

    open spec fn deep_view(&self) -> Felt {
        *self
    }
}

/// A message sent from the rollup chain to the settlement chain.
/// Field order on the wire: `from_address`, `to_address`, `payload`.
#[derive(Clone, Debug, PartialEq, Eq)]
pub struct MessageL2ToL1 {
    pub from_address: Felt,
    pub to_address: EthAddress,
    pub payload: Vec<Felt>,
}

/// The mathematical model of a [`MessageL2ToL1`].
pub struct MessageL2ToL1View {
    pub from_address: Felt,
    pub to_address: EthAddress,
    pub payload: Seq<Felt>,
}

impl DeepView for MessageL2ToL1 {
    type V = MessageL2ToL1View;

    open spec fn deep_view(&self) -> MessageL2ToL1View {
        MessageL2ToL1View {
            from_address: self.from_address,
            to_address: self.to_address,
            payload: self.payload@,
        }
    }
}

/// A message sent from the settlement chain to the rollup chain.
/// Field order on the wire: `from_address`, `to_address`, `nonce`,
/// `selector`, `payload`.
#[derive(Clone, Debug, PartialEq, Eq)]
pub struct MessageL1ToL2 {
    pub from_address: Felt,
    pub to_address: Felt,
    pub nonce: Felt,
    pub selector: Felt,
    pub payload: Vec<Felt>,
}

/// The mathematical model of a [`MessageL1ToL2`].
pub struct MessageL1ToL2View {
    pub from_address: Felt,
    pub to_address: Felt,
    pub nonce: Felt,
    pub selector: Felt,
    pub payload: Seq<Felt>,
}

impl DeepView for MessageL1ToL2 {
    type V = MessageL1ToL2View;

    open spec fn deep_view(&self) -> MessageL1ToL2View {
        MessageL1ToL2View {
            from_address: self.from_address,
            to_address: self.to_address,
            nonce: self.nonce,
            selector: self.selector,
            payload: self.payload@,
        }
    }
}

/// The structured output of the rollup's program, as exchanged with the
/// settlement chain. Field order on the wire: the five scalars in declaration
/// order, then the four sequences in declaration order.
#[derive(Clone, Debug, PartialEq, Eq)]
pub struct StarknetOsOutput {
    pub prev_state_root: Felt,
    pub new_state_root: Felt,
    pub block_number: Felt,
    pub block_hash: Felt,
    pub config_hash: Felt,
    pub messages_to_l1: Vec<MessageL2ToL1>,
    pub messages_to_l2: Vec<MessageL1ToL2>,
    pub state_updates: Vec<Felt>,
    pub contract_class_diff: Vec<Felt>,
}

/// The mathematical model of a [`StarknetOsOutput`].
pub struct StarknetOsOutputView {
    pub prev_state_root: Felt,
    pub new_state_root: Felt,
    pub block_number: Felt,
    pub block_hash: Felt,
    pub config_hash: Felt,
    pub messages_to_l1: Seq<MessageL2ToL1View>,
    pub messages_to_l2: Seq<MessageL1ToL2View>,
    pub state_updates: Seq<Felt>,
    pub contract_class_diff: Seq<Felt>,
}

impl DeepView for StarknetOsOutput {
    type V = StarknetOsOutputView;

    open spec fn deep_view(&self) -> StarknetOsOutputView {
        StarknetOsOutputView {
            prev_state_root: self.prev_state_root,
            new_state_root: self.new_state_root,
            block_number: self.block_number,
            block_hash: self.block_hash,
            config_hash: self.config_hash,
            messages_to_l1: self.messages_to_l1.deep_view(),
            messages_to_l2: self.messages_to_l2.deep_view(),
            state_updates: self.state_updates@,
            contract_class_diff: self.contract_class_diff@,
        }
    }
}

// ------------------------------------------------------------------
// Encoding, at the specification level.
// ------------------------------------------------------------------

/// A scalar encodes as itself.
pub open spec fn spec_encoded_felt(f: Felt) -> Seq<Felt> {
    seq![f]
}

/// A felt sequence encodes as a header denoting `1 + element count`,
/// followed by the elements in order.
pub open spec fn spec_encoded_vec_felt(v: Seq<Felt>) -> Seq<Felt> {
    seq![spec_felt_of_u64((v.len() + 1) as u64)] + v
}

/// Wire image of one rollup-to-settlement message.
pub open spec fn spec_encoded_msg_l2(m: MessageL2ToL1View) -> Seq<Felt> {
    seq![m.from_address, m.to_address.felt] + spec_encoded_vec_felt(m.payload)
}

/// Wire image of one settlement-to-rollup message.
pub open spec fn spec_encoded_msg_l1(m: MessageL1ToL2View) -> Seq<Felt> {
    seq![m.from_address, m.to_address, m.nonce, m.selector] + spec_encoded_vec_felt(m.payload)
}

/// Concatenation of the wire images of a run of rollup-to-settlement
/// messages, in order.
pub open spec fn spec_encoded_msgs_l2(ms: Seq<MessageL2ToL1View>) -> Seq<Felt>
    decreases ms.len(),
{
    if ms.len() == 0 {
        Seq::empty()
    } else {
        spec_encoded_msg_l2(ms[0]) + spec_encoded_msgs_l2(ms.skip(1))
    }
}

/// Concatenation of the wire images of a run of settlement-to-rollup
/// messages, in order.
pub open spec fn spec_encoded_msgs_l1(ms: Seq<MessageL1ToL2View>) -> Seq<Felt>
    decreases ms.len(),
{
    if ms.len() == 0 {
        Seq::empty()
    } else {
        spec_encoded_msg_l1(ms[0]) + spec_encoded_msgs_l1(ms.skip(1))
    }
}

/// A message sequence encodes as a header denoting `1 + message count`,
/// followed by each message's wire image.
pub open spec fn spec_encoded_vec_msg_l2(ms: Seq<MessageL2ToL1View>) -> Seq<Felt> {
    seq![spec_felt_of_u64((ms.len() + 1) as u64)] + spec_encoded_msgs_l2(ms)
}

/// As [`spec_encoded_vec_msg_l2`], for settlement-to-rollup messages.
pub open spec fn spec_encoded_vec_msg_l1(ms: Seq<MessageL1ToL2View>) -> Seq<Felt> {
    seq![spec_felt_of_u64((ms.len() + 1) as u64)] + spec_encoded_msgs_l1(ms)
}

/// Wire image of the whole program output.
pub open spec fn spec_encoded_os(o: StarknetOsOutputView) -> Seq<Felt> {
    seq![o.prev_state_root, o.new_state_root, o.block_number, o.block_hash, o.config_hash]
        + spec_encoded_vec_msg_l2(o.messages_to_l1)
        + spec_encoded_vec_msg_l1(o.messages_to_l2)
        + spec_encoded_vec_felt(o.state_updates)
        + spec_encoded_vec_felt(o.contract_class_diff)
}

// ------------------------------------------------------------------
// Decoding, at the specification level. Each function yields the decoded
// view and the number of elements consumed, or the error the decoder
// reports.
// ------------------------------------------------------------------

/// Decoding a scalar consumes exactly one element.
pub open spec fn spec_decoded_felt(s: Seq<Felt>) -> Result<(Felt, int), FeltReaderError> {
    if s.len() == 0 {
        Err(FeltReaderError::OutOfBounds)
    } else {
        Ok((s[0], 1))
    }
}

/// Decoding a felt sequence is reading one bounded segment.
pub open spec fn spec_decoded_vec_felt(s: Seq<Felt>) -> Result<(Seq<Felt>, int), FeltReaderError> {
    spec_read_segment(s)
}

/// Decoding one rollup-to-settlement message: two scalars (the second must
/// fit a settlement-chain address), then the payload sequence.
pub open spec fn spec_decoded_msg_l2(s: Seq<Felt>) -> Result<(MessageL2ToL1View, int), FeltReaderError> {
    if s.len() < 2 {
        Err(FeltReaderError::OutOfBounds)
    } else if !s[1].fits_eth_address() {
        Err(FeltReaderError::InvalidCast)
    } else {
        match spec_read_segment(s.skip(2)) {
            Ok(p) => Ok(
                (
                    MessageL2ToL1View {
                        from_address: s[0],
                        to_address: EthAddress { felt: s[1] },
                        payload: p.0,
                    },
                    2 + p.1,
                ),
            ),
            Err(e) => Err(e),
        }
    }
}

/// Decoding one settlement-to-rollup message: four scalars, then the payload
/// sequence.
pub open spec fn spec_decoded_msg_l1(s: Seq<Felt>) -> Result<(MessageL1ToL2View, int), FeltReaderError> {
    if s.len() < 4 {
        Err(FeltReaderError::OutOfBounds)
    } else {
        match spec_read_segment(s.skip(4)) {
            Ok(p) => Ok(
                (
                    MessageL1ToL2View {
                        from_address: s[0],
                        to_address: s[1],
                        nonce: s[2],
                        selector: s[3],
                        payload: p.0,
                    },
                    4 + p.1,
                ),
            ),
            Err(e) => Err(e),
        }
    }
}

/// Decoding messages out of a bounded segment, one after the other, until
/// the segment is exhausted.
pub open spec fn spec_decoded_msgs_l2(body: Seq<Felt>) -> Result<Seq<MessageL2ToL1View>, FeltReaderError>
    decreases body.len(),
{
    if body.len() == 0 {
        Ok(Seq::empty())
    } else {
        match spec_decoded_msg_l2(body) {
            Ok(p) => if 1 <= p.1 <= body.len() {
                match spec_decoded_msgs_l2(body.skip(p.1)) {
                    Ok(rest) => Ok(seq![p.0] + rest),
                    Err(e) => Err(e),
                }
            } else {
                Err(FeltReaderError::OutOfBounds)
            },
            Err(e) => Err(e),
        }
    }
}

/// As [`spec_decoded_msgs_l2`], for settlement-to-rollup messages.
pub open spec fn spec_decoded_msgs_l1(body: Seq<Felt>) -> Result<Seq<MessageL1ToL2View>, FeltReaderError>
    decreases body.len(),
{
    if body.len() == 0 {
        Ok(Seq::empty())
    } else {
        match spec_decoded_msg_l1(body) {
            Ok(p) => if 1 <= p.1 <= body.len() {
                match spec_decoded_msgs_l1(body.skip(p.1)) {
                    Ok(rest) => Ok(seq![p.0] + rest),
                    Err(e) => Err(e),
                }
            } else {
                Err(FeltReaderError::OutOfBounds)
            },
            Err(e) => Err(e),
        }
    }
}

/// Decoding a message sequence: one bounded segment, exhausted by message
/// decodes.
pub open spec fn spec_decoded_vec_msg_l2(s: Seq<Felt>) -> Result<(Seq<MessageL2ToL1View>, int), FeltReaderError> {
    match spec_read_segment(s) {
        Ok(p) => match spec_decoded_msgs_l2(p.0) {
            Ok(ms) => Ok((ms, p.1)),
            Err(e) => Err(e),
        },
        Err(e) => Err(e),
    }
}

/// As [`spec_decoded_vec_msg_l2`], for settlement-to-rollup messages.
pub open spec fn spec_decoded_vec_msg_l1(s: Seq<Felt>) -> Result<(Seq<MessageL1ToL2View>, int), FeltReaderError> {
    match spec_read_segment(s) {
        Ok(p) => match spec_decoded_msgs_l1(p.0) {
            Ok(ms) => Ok((ms, p.1)),
            Err(e) => Err(e),
        },
        Err(e) => Err(e),
    }
}

/// Decoding the whole program output: five scalars, then the four sequences.
pub open spec fn spec_decoded_os(s: Seq<Felt>) -> Result<(StarknetOsOutputView, int), FeltReaderError> {
    if s.len() < 5 {
        Err(FeltReaderError::OutOfBounds)
    } else {
        match spec_decoded_vec_msg_l2(s.skip(5)) {
            Ok((m1, c1)) => match spec_decoded_vec_msg_l1(s.skip(5 + c1)) {
                Ok((m2, c2)) => match spec_read_segment(s.skip(5 + c1 + c2)) {
                    Ok((su, c3)) => match spec_read_segment(s.skip(5 + c1 + c2 + c3)) {
                        Ok((cd, c4)) => Ok(
                            (
                                StarknetOsOutputView {
                                    prev_state_root: s[0],
                                    new_state_root: s[1],
                                    block_number: s[2],
                                    block_hash: s[3],
                                    config_hash: s[4],
                                    messages_to_l1: m1,
                                    messages_to_l2: m2,
                                    state_updates: su,
                                    contract_class_diff: cd,
                                },
                                5 + c1 + c2 + c3 + c4,
                            ),
                        ),
                        Err(e) => Err(e),
                    },
                    Err(e) => Err(e),
                },
                Err(e) => Err(e),
            },
            Err(e) => Err(e),
        }
    }
}

// ------------------------------------------------------------------
// The codec interface.
// ------------------------------------------------------------------

/// Encode/decode between a record and a flat run of field elements.
///
/// `encoded` and `decoded` are the mathematical meaning of the two exec
/// directions; every implementation's contract is stated against them.
pub trait SnosCodec: DeepView + Sized {
    /// No arithmetic in the encoder overflows for this value.
    spec fn encodable(self) -> bool;

    /// The element count that `size_in_felts` reports. For nested records it
    /// is an estimate used only to pre-size buffers.
    spec fn size_estimate(self) -> int;

    /// The canonical encoding of a value with the given view.
    spec fn encoded(v: Self::V) -> Seq<Felt>;

    /// What decoding yields on a given run: a view and the count of elements
    /// consumed, or the reported error.
    spec fn decoded(s: Seq<Felt>) -> Result<(Self::V, int), FeltReaderError>;

    /// Estimate of the number of field elements required to encode `self`,
    /// used to pre-size output buffers.
    fn size_in_felts(&self) -> (r: usize)
        requires
            self.encodable(),
        ensures
            r as int == self.size_estimate(),
    ;

    /// Append the element representation of `self` to `output`.
    fn encode_to(self, output: &mut Vec<Felt>)
        requires
            self.encodable(),
        ensures
            final(output)@ == old(output)@ + Self::encoded(self.deep_view()),
    ;

    /// Decode one value from the front of `input`; the outcome and the
    /// elements consumed follow `Self::decoded`.
    fn decode(input: &mut FeltReader) -> (r: Result<Self, FeltReaderError>)
        ensures
            match Self::decoded(old(input).remaining()) {
                Ok(p) => r matches Ok(x) && x.deep_view() == p.0
                    && final(input).remaining() == old(input).remaining().skip(p.1),
                Err(e) => r matches Err(e2) && e2 == e,
            },
    ;

    /// Encode `self` into a freshly allocated buffer.
    fn into_encoded_vec(self) -> (r: Vec<Felt>)
        requires
            self.encodable(),
        ensures
            r@ == Self::encoded(self.deep_view()),
    ;
}

// ------------------------------------------------------------------
// Bounds on what each decoder consumes.
// ------------------------------------------------------------------

/// A successful message decode consumes at least its two scalars and the
/// payload header, and never more than the run it was given.
pub proof fn lemma_msg_l2_consumed(s: Seq<Felt>)
    ensures
        spec_decoded_msg_l2(s) matches Ok(p) ==> 3 <= p.1 <= s.len(),
{
}

/// As [`lemma_msg_l2_consumed`], for settlement-to-rollup messages.
pub proof fn lemma_msg_l1_consumed(s: Seq<Felt>)
    ensures
        spec_decoded_msg_l1(s) matches Ok(p) ==> 5 <= p.1 <= s.len(),
{
}

// ------------------------------------------------------------------
// Implementations.
// ------------------------------------------------------------------

impl SnosCodec for Felt {
    open spec fn encodable(self) -> bool {
        true
    }

    open spec fn size_estimate(self) -> int {
        1
    }

    open spec fn encoded(v: Felt) -> Seq<Felt> {
        spec_encoded_felt(v)
    }

    open spec fn decoded(s: Seq<Felt>) -> Result<(Felt, int), FeltReaderError> {
        spec_decoded_felt(s)
    }

    fn size_in_felts(&self) -> (r: usize) {
        1
    }

    fn encode_to(self, output: &mut Vec<Felt>) {
        output.push(self);
        proof {
            assert(output@ =~= old(output)@ + spec_encoded_felt(self));
        }
    }

    fn decode(input: &mut FeltReader) -> (r: Result<Self, FeltReaderError>) {
        input.read()
    }

    fn into_encoded_vec(self) -> (r: Vec<Felt>) {
        let ghost v = self.deep_view();
        let mut output: Vec<Felt> = Vec::with_capacity(self.size_in_felts());
        self.encode_to(&mut output);
        proof {
            assert(output@ =~= <Self as SnosCodec>::encoded(v));
        }
        output
    }
}

impl SnosCodec for Vec<Felt> {
    open spec fn encodable(self) -> bool {
        self@.len() + 1 <= usize::MAX
    }

    open spec fn size_estimate(self) -> int {
        1 + self@.len() as int
    }

    open spec fn encoded(v: Seq<Felt>) -> Seq<Felt> {
        spec_encoded_vec_felt(v)
    }

    open spec fn decoded(s: Seq<Felt>) -> Result<(Seq<Felt>, int), FeltReaderError> {
        spec_decoded_vec_felt(s)
    }

    fn size_in_felts(&self) -> (r: usize) {
        1 + self.len()
    }

    fn encode_to(self, output: &mut Vec<Felt>) {
        let ghost v = self@;
        proof {
            assert(self.deep_view() =~= v);
        }
        let header: u64 = self.size_in_felts() as u64;
        output.push(felt_from_u64(header));
        proof {
            assert(output@ =~= old(output)@ + seq![spec_felt_of_u64(header)] + v.subrange(0, 0));
        }
        let mut i: usize = 0;
        while i < self.len()
            invariant
                i <= v.len(),
                self@ == v,
                header as int == 1 + v.len(),
                output@ == old(output)@ + seq![spec_felt_of_u64(header)] + v.subrange(0, i as int),
            decreases v.len() - i,
        {
            output.push(self[i]);
            proof {
                assert(output@ =~= old(output)@ + seq![spec_felt_of_u64(header)] + v.subrange(
                    0,
                    i as int + 1,
                ));
            }
            i = i + 1;
        }
        proof {
            assert(v.subrange(0, v.len() as int) =~= v);
            assert(output@ =~= old(output)@ + spec_encoded_vec_felt(v));
        }
    }

    fn decode(input: &mut FeltReader) -> (r: Result<Self, FeltReaderError>) {
        match input.read_segment() {
            Ok(seg) => {
                proof {
                    assert(seg.deep_view() =~= seg@);
                }
                Ok(seg)
            },
            Err(e) => Err(e),
        }
    }

    fn into_encoded_vec(self) -> (r: Vec<Felt>) {
        let ghost v = self.deep_view();
        let mut output: Vec<Felt> = Vec::with_capacity(self.size_in_felts());
        self.encode_to(&mut output);
        proof {
            assert(output@ =~= <Self as SnosCodec>::encoded(v));
        }
        output
    }
}

impl SnosCodec for MessageL2ToL1 {
    open spec fn encodable(self) -> bool {
        self.payload@.len() + 1 <= usize::MAX
    }

    open spec fn size_estimate(self) -> int {
        3
    }

    open spec fn encoded(v: MessageL2ToL1View) -> Seq<Felt> {
        spec_encoded_msg_l2(v)
    }

    open spec fn decoded(s: Seq<Felt>) -> Result<(MessageL2ToL1View, int), FeltReaderError> {
        spec_decoded_msg_l2(s)
    }

    fn size_in_felts(&self) -> (r: usize) {
        3
    }

    fn encode_to(self, output: &mut Vec<Felt>) {
        let ghost mv = self.deep_view();
        output.push(self.from_address);
        output.push(eth_address_to_felt(&self.to_address));
        self.payload.encode_to(output);
        proof {
            assert(output@ =~= old(output)@ + spec_encoded_msg_l2(mv));
        }
    }

    fn decode(input: &mut FeltReader) -> (r: Result<Self, FeltReaderError>) {
        let ghost pre = input.remaining();
        let from_address = match Felt::decode(input) {
            Ok(f) => f,
            Err(e) => {
                return Err(e);
            },
        };
        let to_felt = match Felt::decode(input) {
            Ok(f) => f,
            Err(e) => {
                return Err(e);
            },
        };
        proof {
            assert(input.remaining() =~= pre.skip(2));
        }
        let to_address = match eth_address_from_felt(to_felt) {
            Some(a) => a,
            None => {
                return Err(FeltReaderError::InvalidCast);
            },
        };
        let payload = match Vec::<Felt>::decode(input) {
            Ok(p) => p,
            Err(e) => {
                return Err(e);
            },
        };
        proof {
            assert(pre.skip(1)[0] == pre[1]);
            assert(payload.deep_view() =~= payload@);
            let c = spec_read_segment(pre.skip(2))->Ok_0.1;
            assert(pre.skip(2).skip(c) =~= pre.skip(2 + c));
        }
        Ok(MessageL2ToL1 { from_address, to_address, payload })
    }

    fn into_encoded_vec(self) -> (r: Vec<Felt>) {
        let ghost v = self.deep_view();
        let mut output: Vec<Felt> = Vec::with_capacity(self.size_in_felts());
        self.encode_to(&mut output);
        proof {
            assert(output@ =~= <Self as SnosCodec>::encoded(v));
        }
        output
    }
}

impl SnosCodec for MessageL1ToL2 {
    open spec fn encodable(self) -> bool {
        self.payload@.len() + 5 <= usize::MAX
    }

    open spec fn size_estimate(self) -> int {
        4 + (1 + self.payload@.len() as int)
    }

    open spec fn encoded(v: MessageL1ToL2View) -> Seq<Felt> {
        spec_encoded_msg_l1(v)
    }

    open spec fn decoded(s: Seq<Felt>) -> Result<(MessageL1ToL2View, int), FeltReaderError> {
        spec_decoded_msg_l1(s)
    }

    fn size_in_felts(&self) -> (r: usize) {
        4 + self.payload.size_in_felts()
    }

    fn encode_to(self, output: &mut Vec<Felt>) {
        let ghost mv = self.deep_view();
        output.push(self.from_address);
        output.push(self.to_address);
        output.push(self.nonce);
        output.push(self.selector);
        self.payload.encode_to(output);
        proof {
            assert(output@ =~= old(output)@ + spec_encoded_msg_l1(mv));
        }
    }

    fn decode(input: &mut FeltReader) -> (r: Result<Self, FeltReaderError>) {
        let ghost pre = input.remaining();
        let from_address = match Felt::decode(input) {
            Ok(f) => f,
            Err(e) => {
                return Err(e);
            },
        };
        let to_address = match Felt::decode(input) {
            Ok(f) => f,
            Err(e) => {
                return Err(e);
            },
        };
        let nonce = match Felt::decode(input) {
            Ok(f) => f,
            Err(e) => {
                return Err(e);
            },
        };
        let selector = match Felt::decode(input) {
            Ok(f) => f,
            Err(e) => {
                return Err(e);
            },
        };
        proof {
            assert(input.remaining() =~= pre.skip(4));
        }
        let payload = match Vec::<Felt>::decode(input) {
            Ok(p) => p,
            Err(e) => {
                return Err(e);
            },
        };
        proof {
            assert(pre.skip(1)[0] == pre[1]);
            assert(pre.skip(1).skip(1) =~= pre.skip(2));
            assert(pre.skip(2)[0] == pre[2]);
            assert(pre.skip(2).skip(1) =~= pre.skip(3));
            assert(pre.skip(3)[0] == pre[3]);
            assert(payload.deep_view() =~= payload@);
            let c = spec_read_segment(pre.skip(4))->Ok_0.1;
            assert(pre.skip(4).skip(c) =~= pre.skip(4 + c));
        }
        Ok(MessageL1ToL2 { from_address, to_address, nonce, selector, payload })
    }

    fn into_encoded_vec(self) -> (r: Vec<Felt>) {
        let ghost v = self.deep_view();
        let mut output: Vec<Felt> = Vec::with_capacity(self.size_in_felts());
        self.encode_to(&mut output);
        proof {
            assert(output@ =~= <Self as SnosCodec>::encoded(v));
        }
        output
    }
}


impl SnosCodec for Vec<MessageL2ToL1> {
    open spec fn encodable(self) -> bool {
        self@.len() + 1 <= usize::MAX && forall|i: int|
            0 <= i < self@.len() ==> (#[trigger] self@[i]).encodable()
    }

    open spec fn size_estimate(self) -> int {
        1 + self@.len() as int
    }

    open spec fn encoded(v: Seq<MessageL2ToL1View>) -> Seq<Felt> {
        spec_encoded_vec_msg_l2(v)
    }

    open spec fn decoded(s: Seq<Felt>) -> Result<(Seq<MessageL2ToL1View>, int), FeltReaderError> {
        spec_decoded_vec_msg_l2(s)
    }

    fn size_in_felts(&self) -> (r: usize) {
        1 + self.len()
    }

    fn encode_to(self, output: &mut Vec<Felt>) {
        let ghost ms = self.deep_view();
        let header: u64 = self.size_in_felts() as u64;
        output.push(felt_from_u64(header));
        proof {
            assert(output@ =~= old(output)@ + seq![spec_felt_of_u64(header)]);
        }
        let mut rest = self;
        while rest.len() > 0
            invariant
                forall|i: int| 0 <= i < rest@.len() ==> (#[trigger] rest@[i]).encodable(),
                output@ + spec_encoded_msgs_l2(rest.deep_view()) == old(output)@ + seq![
                    spec_felt_of_u64(header),
                ] + spec_encoded_msgs_l2(ms),
            decreases rest@.len(),
        {
            let ghost rdv0 = rest.deep_view();
            let ghost out0 = output@;
            let m = rest.remove(0);
            proof {
                assert(m.deep_view() == rdv0[0]);
                assert(rest.deep_view() =~= rdv0.skip(1));
            }
            m.encode_to(output);
            proof {
                assert(out0 + spec_encoded_msg_l2(rdv0[0]) + spec_encoded_msgs_l2(rdv0.skip(1))
                    =~= out0 + spec_encoded_msgs_l2(rdv0));
            }
        }
        proof {
            assert(rest.deep_view().len() == 0);
            assert(output@ + spec_encoded_msgs_l2(rest.deep_view()) =~= output@);
            assert(output@ =~= old(output)@ + spec_encoded_vec_msg_l2(ms));
        }
    }

    #[verifier::loop_isolation(false)]
    fn decode(input: &mut FeltReader) -> (r: Result<Self, FeltReaderError>) {
        let ghost pre = input.remaining();
        let seg = match input.read_segment() {
            Ok(s) => s,
            Err(e) => {
                return Err(e);
            },
        };
        let ghost seg0 = seg@;
        let mut sub = FeltReader::new(seg);
        let mut elements: Vec<MessageL2ToL1> = Vec::new();
        proof {
            assert(elements.deep_view() =~= Seq::<MessageL2ToL1View>::empty());
            match spec_decoded_msgs_l2(seg0) {
                Ok(rest) => {
                    assert(elements.deep_view() + rest =~= rest);
                },
                Err(e) => {},
            }
        }
        while sub.remaining_len() > 0
            invariant
                spec_decoded_msgs_l2(seg0) == (match spec_decoded_msgs_l2(sub.remaining()) {
                    Ok(rest) => Ok::<Seq<MessageL2ToL1View>, FeltReaderError>(
                        elements.deep_view() + rest,
                    ),
                    Err(e) => Err(e),
                }),
            decreases sub.remaining().len(),
        {
            let ghost rem0 = sub.remaining();
            let ghost edv0 = elements.deep_view();
            let m = match MessageL2ToL1::decode(&mut sub) {
                Ok(m) => m,
                Err(e) => {
                    return Err(e);
                },
            };
            elements.push(m);
            proof {
                lemma_msg_l2_consumed(rem0);
                let p = spec_decoded_msg_l2(rem0)->Ok_0;
                assert(elements.deep_view() =~= edv0.push(p.0));
                match spec_decoded_msgs_l2(sub.remaining()) {
                    Ok(rest2) => {
                        assert(edv0 + (seq![p.0] + rest2) =~= edv0.push(p.0) + rest2);
                    },
                    Err(e2) => {},
                }
            }
        }
        proof {
            assert(sub.remaining() =~= Seq::<Felt>::empty());
            assert(elements.deep_view() + Seq::<MessageL2ToL1View>::empty() =~= elements.deep_view());
        }
        Ok(elements)
    }

    fn into_encoded_vec(self) -> (r: Vec<Felt>) {
        let ghost v = self.deep_view();
        let mut output: Vec<Felt> = Vec::with_capacity(self.size_in_felts());
        self.encode_to(&mut output);
        proof {
            assert(output@ =~= <Self as SnosCodec>::encoded(v));
        }
        output
    }
}

impl SnosCodec for Vec<MessageL1ToL2> {
    open spec fn encodable(self) -> bool {
        self@.len() + 1 <= usize::MAX && forall|i: int|
            0 <= i < self@.len() ==> (#[trigger] self@[i]).encodable()
    }

    open spec fn size_estimate(self) -> int {
        1 + self@.len() as int
    }

    open spec fn encoded(v: Seq<MessageL1ToL2View>) -> Seq<Felt> {
        spec_encoded_vec_msg_l1(v)
    }

    open spec fn decoded(s: Seq<Felt>) -> Result<(Seq<MessageL1ToL2View>, int), FeltReaderError> {
        spec_decoded_vec_msg_l1(s)
    }

    fn size_in_felts(&self) -> (r: usize) {
        1 + self.len()
    }

    fn encode_to(self, output: &mut Vec<Felt>) {
        let ghost ms = self.deep_view();
        let header: u64 = self.size_in_felts() as u64;
        output.push(felt_from_u64(header));
        proof {
            assert(output@ =~= old(output)@ + seq![spec_felt_of_u64(header)]);
        }
        let mut rest = self;
        while rest.len() > 0
            invariant
                forall|i: int| 0 <= i < rest@.len() ==> (#[trigger] rest@[i]).encodable(),
                output@ + spec_encoded_msgs_l1(rest.deep_view()) == old(output)@ + seq![
                    spec_felt_of_u64(header),
                ] + spec_encoded_msgs_l1(ms),
            decreases rest@.len(),
        {
            let ghost rdv0 = rest.deep_view();
            let ghost out0 = output@;
            let m = rest.remove(0);
            proof {
                assert(m.deep_view() == rdv0[0]);
                assert(rest.deep_view() =~= rdv0.skip(1));
            }
            m.encode_to(output);
            proof {
                assert(out0 + spec_encoded_msg_l1(rdv0[0]) + spec_encoded_msgs_l1(rdv0.skip(1))
                    =~= out0 + spec_encoded_msgs_l1(rdv0));
            }
        }
        proof {
            assert(rest.deep_view().len() == 0);
            assert(output@ + spec_encoded_msgs_l1(rest.deep_view()) =~= output@);
            assert(output@ =~= old(output)@ + spec_encoded_vec_msg_l1(ms));
        }
    }

    #[verifier::loop_isolation(false)]
    fn decode(input: &mut FeltReader) -> (r: Result<Self, FeltReaderError>) {
        let ghost pre = input.remaining();
        let seg = match input.read_segment() {
            Ok(s) => s,
            Err(e) => {
                return Err(e);
            },
        };
        let ghost seg0 = seg@;
        let mut sub = FeltReader::new(seg);
        let mut elements: Vec<MessageL1ToL2> = Vec::new();
        proof {
            assert(elements.deep_view() =~= Seq::<MessageL1ToL2View>::empty());
            match spec_decoded_msgs_l1(seg0) {
                Ok(rest) => {
                    assert(elements.deep_view() + rest =~= rest);
                },
                Err(e) => {},
            }
        }
        while sub.remaining_len() > 0
            invariant
                spec_decoded_msgs_l1(seg0) == (match spec_decoded_msgs_l1(sub.remaining()) {
                    Ok(rest) => Ok::<Seq<MessageL1ToL2View>, FeltReaderError>(
                        elements.deep_view() + rest,
                    ),
                    Err(e) => Err(e),
                }),
            decreases sub.remaining().len(),
        {
            let ghost rem0 = sub.remaining();
            let ghost edv0 = elements.deep_view();
            let m = match MessageL1ToL2::decode(&mut sub) {
                Ok(m) => m,
                Err(e) => {
                    return Err(e);
                },
            };
            elements.push(m);
            proof {
                lemma_msg_l1_consumed(rem0);
                let p = spec_decoded_msg_l1(rem0)->Ok_0;
                assert(elements.deep_view() =~= edv0.push(p.0));
                match spec_decoded_msgs_l1(sub.remaining()) {
                    Ok(rest2) => {
                        assert(edv0 + (seq![p.0] + rest2) =~= edv0.push(p.0) + rest2);
                    },
                    Err(e2) => {},
                }
            }
        }
        proof {
            assert(sub.remaining() =~= Seq::<Felt>::empty());
            assert(elements.deep_view() + Seq::<MessageL1ToL2View>::empty() =~= elements.deep_view());
        }
        Ok(elements)
    }

    fn into_encoded_vec(self) -> (r: Vec<Felt>) {
        let ghost v = self.deep_view();
        let mut output: Vec<Felt> = Vec::with_capacity(self.size_in_felts());
        self.encode_to(&mut output);
        proof {
            assert(output@ =~= <Self as SnosCodec>::encoded(v));
        }
        output
    }
}

impl SnosCodec for StarknetOsOutput {
    open spec fn encodable(self) -> bool {
        5 + (1 + self.messages_to_l1@.len() as int) + (1 + self.messages_to_l2@.len() as int)
            + self.state_updates@.len() as int + self.contract_class_diff@.len() as int
            <= usize::MAX && self.messages_to_l1.encodable() && self.messages_to_l2.encodable()
            && self.state_updates.encodable() && self.contract_class_diff.encodable()
    }

    open spec fn size_estimate(self) -> int {
        5 + (1 + self.messages_to_l1@.len() as int) + (1 + self.messages_to_l2@.len() as int)
            + self.state_updates@.len() as int + self.contract_class_diff@.len() as int
    }

    open spec fn encoded(v: StarknetOsOutputView) -> Seq<Felt> {
        spec_encoded_os(v)
    }

    open spec fn decoded(s: Seq<Felt>) -> Result<(StarknetOsOutputView, int), FeltReaderError> {
        spec_decoded_os(s)
    }

    fn size_in_felts(&self) -> (r: usize) {
        5 + self.messages_to_l1.size_in_felts() + self.messages_to_l2.size_in_felts()
            + self.state_updates.len() + self.contract_class_diff.len()
    }

    fn encode_to(self, output: &mut Vec<Felt>) {
        let ghost ov = self.deep_view();
        output.push(self.prev_state_root);
        output.push(self.new_state_root);
        output.push(self.block_number);
        output.push(self.block_hash);
        output.push(self.config_hash);
        self.messages_to_l1.encode_to(output);
        self.messages_to_l2.encode_to(output);
        self.state_updates.encode_to(output);
        self.contract_class_diff.encode_to(output);
        proof {
            assert(output@ =~= old(output)@ + spec_encoded_os(ov));
        }
    }

    #[verifier::rlimit(100)]
    fn decode(input: &mut FeltReader) -> (r: Result<Self, FeltReaderError>) {
        let ghost pre = input.remaining();
        let prev_state_root = match Felt::decode(input) {
            Ok(f) => f,
            Err(e) => {
                return Err(e);
            },
        };
        let new_state_root = match Felt::decode(input) {
            Ok(f) => f,
            Err(e) => {
                return Err(e);
            },
        };
        let block_number = match Felt::decode(input) {
            Ok(f) => f,
            Err(e) => {
                return Err(e);
            },
        };
        let block_hash = match Felt::decode(input) {
            Ok(f) => f,
            Err(e) => {
                return Err(e);
            },
        };
        let config_hash = match Felt::decode(input) {
            Ok(f) => f,
            Err(e) => {
                return Err(e);
            },
        };
        proof {
            assert(pre.skip(1).skip(1) =~= pre.skip(2));
            assert(pre.skip(2).skip(1) =~= pre.skip(3));
            assert(pre.skip(3).skip(1) =~= pre.skip(4));
            assert(pre.skip(4).skip(1) =~= pre.skip(5));
            assert(pre.skip(1)[0] == pre[1]);
            assert(pre.skip(2)[0] == pre[2]);
            assert(pre.skip(3)[0] == pre[3]);
            assert(pre.skip(4)[0] == pre[4]);
            assert(input.remaining() =~= pre.skip(5));
        }
        let messages_to_l1 = match Vec::<MessageL2ToL1>::decode(input) {
            Ok(v) => v,
            Err(e) => {
                return Err(e);
            },
        };
        proof {
            let c1 = spec_decoded_vec_msg_l2(pre.skip(5))->Ok_0.1;
            assert(pre.skip(5).skip(c1) =~= pre.skip(5 + c1));
        }
        let messages_to_l2 = match Vec::<MessageL1ToL2>::decode(input) {
            Ok(v) => v,
            Err(e) => {
                return Err(e);
            },
        };
        proof {
            let c1 = spec_decoded_vec_msg_l2(pre.skip(5))->Ok_0.1;
            let c2 = spec_decoded_vec_msg_l1(pre.skip(5 + c1))->Ok_0.1;
            assert(pre.skip(5 + c1).skip(c2) =~= pre.skip(5 + c1 + c2));
        }
        let state_updates = match Vec::<Felt>::decode(input) {
            Ok(v) => v,
            Err(e) => {
                return Err(e);
            },
        };
        proof {
            let c1 = spec_decoded_vec_msg_l2(pre.skip(5))->Ok_0.1;
            let c2 = spec_decoded_vec_msg_l1(pre.skip(5 + c1))->Ok_0.1;
            let c3 = spec_read_segment(pre.skip(5 + c1 + c2))->Ok_0.1;
            assert(pre.skip(5 + c1 + c2).skip(c3) =~= pre.skip(5 + c1 + c2 + c3));
        }
        let contract_class_diff = match Vec::<Felt>::decode(input) {
            Ok(v) => v,
            Err(e) => {
                return Err(e);
            },
        };
        proof {
            let c1 = spec_decoded_vec_msg_l2(pre.skip(5))->Ok_0.1;
            let c2 = spec_decoded_vec_msg_l1(pre.skip(5 + c1))->Ok_0.1;
            let c3 = spec_read_segment(pre.skip(5 + c1 + c2))->Ok_0.1;
            let c4 = spec_read_segment(pre.skip(5 + c1 + c2 + c3))->Ok_0.1;
            assert(pre.skip(5 + c1 + c2 + c3).skip(c4) =~= pre.skip(5 + c1 + c2 + c3 + c4));
            assert(state_updates.deep_view() =~= state_updates@);
            assert(contract_class_diff.deep_view() =~= contract_class_diff@);
        }
        Ok(
            StarknetOsOutput {
                prev_state_root,
                new_state_root,
                block_number,
                block_hash,
                config_hash,
                messages_to_l1,
                messages_to_l2,
                state_updates,
                contract_class_diff,
            },
        )
    }

    fn into_encoded_vec(self) -> (r: Vec<Felt>) {
        let ghost v = self.deep_view();
        let mut output: Vec<Felt> = Vec::with_capacity(self.size_in_felts());
        self.encode_to(&mut output);
        proof {
            assert(output@ =~= <Self as SnosCodec>::encoded(v));
        }
        output
    }
}



// ------------------------------------------------------------------
// Round-trip and safety laws.
// ------------------------------------------------------------------

/// Every field element survives a round trip: decoding its encoding, with
/// anything behind it, yields the element back and consumes exactly it.
pub proof fn lemma_felt_round_trip(f: Felt, rest: Seq<Felt>)
    ensures
        spec_decoded_felt(spec_encoded_felt(f) + rest) == Ok::<(Felt, int), FeltReaderError>(
            (f, 1int),
        ),
{
    assert((spec_encoded_felt(f) + rest)[0] == f);
}

/// Every felt sequence survives a round trip, whatever its length, and the
/// written header denotes `1 + element count`, never the raw count.
pub proof fn lemma_vec_felt_round_trip(v: Seq<Felt>, rest: Seq<Felt>)
    requires
        v.len() + 1 <= usize::MAX,
    ensures
        spec_encoded_vec_felt(v)[0] == spec_felt_of_u64((v.len() + 1) as u64),
        spec_felt_of_u64((v.len() + 1) as u64).value() == v.len() + 1,
        spec_decoded_vec_felt(spec_encoded_vec_felt(v) + rest) == Ok::<
            (Seq<Felt>, int),
            FeltReaderError,
        >((v, v.len() as int + 1)),
{
    let s = spec_encoded_vec_felt(v) + rest;
    let h = spec_felt_of_u64((v.len() + 1) as u64);
    assert(s[0] == h);
    assert(h.d0 == v.len() + 1);
    assert(s.len() >= h.d0);
    assert(s.subrange(1, h.d0 as int) =~= v);
}

/// A header that promises more elements than remain exhausts the reader:
/// decoding reports `OutOfBounds`, it never panics.
pub proof fn lemma_segment_exhaustion(s: Seq<Felt>)
    requires
        s.len() > 0,
        s[0].fits_u64(),
        s[0].d0 >= 1,
        s[0].d0 > s.len(),
    ensures
        spec_read_segment(s) == Err::<(Seq<Felt>, int), FeltReaderError>(
            FeltReaderError::OutOfBounds,
        ),
{
}

/// Every rollup-to-settlement message whose address fits and whose payload
/// is encodable survives a round trip.
pub proof fn lemma_msg_l2_round_trip(m: MessageL2ToL1View, rest: Seq<Felt>)
    requires
        m.to_address.wf(),
        m.payload.len() + 1 <= usize::MAX,
    ensures
        spec_decoded_msg_l2(spec_encoded_msg_l2(m) + rest) == Ok::<
            (MessageL2ToL1View, int),
            FeltReaderError,
        >((m, spec_encoded_msg_l2(m).len() as int)),
{
    let s = spec_encoded_msg_l2(m) + rest;
    assert(s[0] == m.from_address);
    assert(s[1] == m.to_address.felt);
    assert(s.skip(2) =~= spec_encoded_vec_felt(m.payload) + rest);
    lemma_vec_felt_round_trip(m.payload, rest);
    let p = spec_read_segment(s.skip(2))->Ok_0;
    assert(EthAddress { felt: s[1] } == m.to_address);
    assert(spec_encoded_msg_l2(m).len() == 2 + (1 + m.payload.len()));
}

/// Every settlement-to-rollup message with an encodable payload survives a
/// round trip.
pub proof fn lemma_msg_l1_round_trip(m: MessageL1ToL2View, rest: Seq<Felt>)
    requires
        m.payload.len() + 1 <= usize::MAX,
    ensures
        spec_decoded_msg_l1(spec_encoded_msg_l1(m) + rest) == Ok::<
            (MessageL1ToL2View, int),
            FeltReaderError,
        >((m, spec_encoded_msg_l1(m).len() as int)),
{
    let s = spec_encoded_msg_l1(m) + rest;
    assert(s[0] == m.from_address);
    assert(s[1] == m.to_address);
    assert(s[2] == m.nonce);
    assert(s[3] == m.selector);
    assert(s.skip(4) =~= spec_encoded_vec_felt(m.payload) + rest);
    lemma_vec_felt_round_trip(m.payload, rest);
    assert(spec_encoded_msg_l1(m).len() == 4 + (1 + m.payload.len()));
}

/// An empty rollup-to-settlement message sequence survives a round trip.
pub proof fn lemma_vec_msg_l2_empty_round_trip(rest: Seq<Felt>)
    ensures
        spec_decoded_vec_msg_l2(spec_encoded_vec_msg_l2(Seq::empty()) + rest) == Ok::<
            (Seq<MessageL2ToL1View>, int),
            FeltReaderError,
        >((Seq::empty(), 1int)),
{
    let ms = Seq::<MessageL2ToL1View>::empty();
    let s = spec_encoded_vec_msg_l2(ms) + rest;
    assert(s[0] == spec_felt_of_u64(1u64));
    assert(s.subrange(1, 1) =~= Seq::<Felt>::empty());
}

/// An empty settlement-to-rollup message sequence survives a round trip.
pub proof fn lemma_vec_msg_l1_empty_round_trip(rest: Seq<Felt>)
    ensures
        spec_decoded_vec_msg_l1(spec_encoded_vec_msg_l1(Seq::empty()) + rest) == Ok::<
            (Seq<MessageL1ToL2View>, int),
            FeltReaderError,
        >((Seq::empty(), 1int)),
{
    let ms = Seq::<MessageL1ToL2View>::empty();
    let s = spec_encoded_vec_msg_l1(ms) + rest;
    assert(s[0] == spec_felt_of_u64(1u64));
    assert(s.subrange(1, 1) =~= Seq::<Felt>::empty());
}

/// The whole program output survives a round trip when its two message
/// sequences are empty and its felt sequences are encodable. The nested
/// message headers count elements rather than felts, so an output carrying
/// a non-empty message run does not re-parse; the felt runs are unrestricted.
#[verifier::rlimit(100)]
pub proof fn lemma_os_round_trip(o: StarknetOsOutputView, rest: Seq<Felt>)
    requires
        o.messages_to_l1.len() == 0,
        o.messages_to_l2.len() == 0,
        o.state_updates.len() + 1 <= usize::MAX,
        o.contract_class_diff.len() + 1 <= usize::MAX,
    ensures
        spec_decoded_os(spec_encoded_os(o) + rest) == Ok::<
            (StarknetOsOutputView, int),
            FeltReaderError,
        >((o, spec_encoded_os(o).len() as int)),
{
    let s = spec_encoded_os(o) + rest;
    let e1 = spec_encoded_vec_msg_l2(o.messages_to_l1);
    let e2 = spec_encoded_vec_msg_l1(o.messages_to_l2);
    let e3 = spec_encoded_vec_felt(o.state_updates);
    let e4 = spec_encoded_vec_felt(o.contract_class_diff);
    assert(o.messages_to_l1 =~= Seq::<MessageL2ToL1View>::empty());
    assert(o.messages_to_l2 =~= Seq::<MessageL1ToL2View>::empty());
    assert(s[0] == o.prev_state_root);
    assert(s[1] == o.new_state_root);
    assert(s[2] == o.block_number);
    assert(s[3] == o.block_hash);
    assert(s[4] == o.config_hash);
    assert(s.skip(5) =~= e1 + (e2 + (e3 + (e4 + rest))));
    lemma_vec_msg_l2_empty_round_trip(e2 + (e3 + (e4 + rest)));
    assert(s.skip(5).skip(1) =~= e2 + (e3 + (e4 + rest)));
    assert(s.skip(6) =~= e2 + (e3 + (e4 + rest)));
    lemma_vec_msg_l1_empty_round_trip(e3 + (e4 + rest));
    assert(s.skip(7) =~= e3 + (e4 + rest));
    lemma_vec_felt_round_trip(o.state_updates, e4 + rest);
    let c3 = o.state_updates.len() as int + 1;
    assert(s.skip(7 + c3) =~= e4 + rest);
    lemma_vec_felt_round_trip(o.contract_class_diff, rest);
    let c4 = o.contract_class_diff.len() as int + 1;
    assert(spec_encoded_os(o).len() == 7 + c3 + c4);
}


} // verus!
