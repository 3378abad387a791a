use madara_core::codec::MessageL1ToL2;
use madara_core::codec::MessageL2ToL1;
use madara_core::codec::SnosCodec;
use madara_core::codec::StarknetOsOutput;
use madara_core::felt::felt_from_u64;
use madara_core::felt::eth_address_from_felt;
use madara_core::felt::Felt;
use madara_core::felt_reader::FeltReader;
use madara_core::felt_reader::FeltReaderError;

fn f(n: u64) -> Felt {
    felt_from_u64(n)
}

#[test]
fn felt_round_trip() {
    let v = Felt { d0: 11, d1: 22, d2: 33, d3: 44 };
    let encoded = v.into_encoded_vec();
    assert_eq!(encoded, vec![v]);
    let mut reader = FeltReader::new(encoded);
    let decoded = Felt::decode(&mut reader).unwrap();
    assert_eq!(decoded, v);
    assert_eq!(reader.remaining_len(), 0);
}

#[test]
fn felt_decode_exhausted() {
    let mut reader = FeltReader::new(Vec::new());
    assert_eq!(Felt::decode(&mut reader), Err(FeltReaderError::OutOfBounds));
}

#[test]
fn vec_felt_round_trip_len_zero() {
    let v: Vec<Felt> = Vec::new();
    let encoded = v.clone().into_encoded_vec();
    // the header denotes 1 + element count, never the raw count
    assert_eq!(encoded, vec![f(1)]);
    let mut reader = FeltReader::new(encoded);
    assert_eq!(Vec::<Felt>::decode(&mut reader).unwrap(), v);
    assert_eq!(reader.remaining_len(), 0);
}

#[test]
fn vec_felt_round_trip_len_one() {
    let v: Vec<Felt> = vec![f(7)];
    let encoded = v.clone().into_encoded_vec();
    assert_eq!(encoded, vec![f(2), f(7)]);
    let mut reader = FeltReader::new(encoded);
    assert_eq!(Vec::<Felt>::decode(&mut reader).unwrap(), v);
}

#[test]
fn vec_felt_round_trip_len_many() {
    let v: Vec<Felt> = vec![f(5), f(6), f(7), f(8), f(9)];
    let encoded = v.clone().into_encoded_vec();
    assert_eq!(encoded[0], f(6));
    assert_eq!(encoded.len(), 6);
    let mut reader = FeltReader::new(encoded);
    assert_eq!(Vec::<Felt>::decode(&mut reader).unwrap(), v);
    assert_eq!(reader.remaining_len(), 0);
}

#[test]
fn segment_longer_than_buffer_is_exhaustion_not_panic() {
    // header promises 4 elements after itself, only 1 is there
    let buffer = vec![f(5), f(1)];
    let mut reader = FeltReader::new(buffer);
    assert_eq!(Vec::<Felt>::decode(&mut reader), Err(FeltReaderError::OutOfBounds));
}

#[test]
fn segment_header_zero_is_invalid_cast() {
    let buffer = vec![f(0), f(1)];
    let mut reader = FeltReader::new(buffer);
    assert_eq!(Vec::<Felt>::decode(&mut reader), Err(FeltReaderError::InvalidCast));
}

#[test]
fn segment_header_too_wide_is_invalid_cast() {
    let wide = Felt { d0: 0, d1: 1, d2: 0, d3: 0 };
    let buffer = vec![wide, f(1)];
    let mut reader = FeltReader::new(buffer);
    assert_eq!(Vec::<Felt>::decode(&mut reader), Err(FeltReaderError::InvalidCast));
}

#[test]
fn message_l2_to_l1_round_trip() {
    let m = MessageL2ToL1 {
        from_address: f(123),
        to_address: eth_address_from_felt(f(456)).unwrap(),
        payload: vec![f(1), f(2), f(3)],
    };
    let encoded = m.clone().into_encoded_vec();
    // from, to, header 4, then the three payload elements
    assert_eq!(encoded, vec![f(123), f(456), f(4), f(1), f(2), f(3)]);
    let mut reader = FeltReader::new(encoded);
    assert_eq!(MessageL2ToL1::decode(&mut reader).unwrap(), m);
    assert_eq!(reader.remaining_len(), 0);
}

#[test]
fn message_l2_to_l1_address_too_wide_is_invalid_cast() {
    // 2^192 exceeds the 160-bit address bound but is a fine field element
    let wide = Felt { d0: 0, d1: 0, d2: 0, d3: 1 };
    let buffer = vec![f(123), wide, f(1)];
    let mut reader = FeltReader::new(buffer);
    assert_eq!(MessageL2ToL1::decode(&mut reader), Err(FeltReaderError::InvalidCast));
}

#[test]
fn message_l1_to_l2_round_trip() {
    let m = MessageL1ToL2 {
        from_address: f(10),
        to_address: f(20),
        nonce: f(30),
        selector: f(40),
        payload: vec![f(50), f(60)],
    };
    assert_eq!(m.size_in_felts(), 7);
    let encoded = m.clone().into_encoded_vec();
    assert_eq!(encoded, vec![f(10), f(20), f(30), f(40), f(3), f(50), f(60)]);
    let mut reader = FeltReader::new(encoded);
    assert_eq!(MessageL1ToL2::decode(&mut reader).unwrap(), m);
}

#[test]
fn os_output_round_trip_empty_messages() {
    let o = StarknetOsOutput {
        prev_state_root: f(1),
        new_state_root: f(2),
        block_number: f(3),
        block_hash: f(4),
        config_hash: f(5),
        messages_to_l1: Vec::new(),
        messages_to_l2: Vec::new(),
        state_updates: vec![f(7), f(8)],
        contract_class_diff: vec![f(9)],
    };
    let encoded = o.clone().into_encoded_vec();
    assert_eq!(
        encoded,
        vec![f(1), f(2), f(3), f(4), f(5), f(1), f(1), f(3), f(7), f(8), f(2), f(9)]
    );
    let mut reader = FeltReader::new(encoded);
    assert_eq!(StarknetOsOutput::decode(&mut reader).unwrap(), o);
    assert_eq!(reader.remaining_len(), 0);
}

#[test]
fn os_output_truncated_is_exhaustion() {
    let o = StarknetOsOutput {
        prev_state_root: f(1),
        new_state_root: f(2),
        block_number: f(3),
        block_hash: f(4),
        config_hash: f(5),
        messages_to_l1: Vec::new(),
        messages_to_l2: Vec::new(),
        state_updates: vec![f(7)],
        contract_class_diff: Vec::new(),
    };
    let mut encoded = o.into_encoded_vec();
    encoded.pop();
    let mut reader = FeltReader::new(encoded);
    assert_eq!(StarknetOsOutput::decode(&mut reader), Err(FeltReaderError::OutOfBounds));
}

#[test]
fn decode_leaves_suffix_for_next_value() {
    let v: Vec<Felt> = vec![f(1), f(2)];
    let mut encoded = v.clone().into_encoded_vec();
    encoded.push(f(99));
    let mut reader = FeltReader::new(encoded);
    assert_eq!(Vec::<Felt>::decode(&mut reader).unwrap(), v);
    assert_eq!(reader.remaining_len(), 1);
    assert_eq!(Felt::decode(&mut reader).unwrap(), f(99));
}
