use alloy_consensus::{Header, Sealable};
use alloy_primitives::{keccak256, B256, U256};
use world_relayer::header::{DecodeError, RlpHeader, Wire};

fn sample() -> Header {
    Header {
        parent_hash: B256::repeat_byte(0x11),
        state_root: B256::repeat_byte(0x22),
        number: 19_000_123,
        gas_limit: 30_000_000,
        gas_used: 12_345_678,
        timestamp: 1_700_000_000,
        difficulty: U256::ZERO,
        base_fee_per_gas: Some(7),
        withdrawals_root: Some(B256::repeat_byte(0x33)),
        ..Header::default()
    }
}

fn text_of(wire: Wire) -> String {
    match wire {
        Wire::Text(text) => text,
        other => panic!("no text: {other:?}"),
    }
}

fn bytes_of(wire: Wire) -> Vec<u8> {
    match wire {
        Wire::Bytes(bytes) => bytes,
        other => panic!("no bytes: {other:?}"),
    }
}

#[test]
fn the_hash_is_the_hash_of_the_encoding() {
    let header = RlpHeader::new(sample());
    assert_eq!(header.encode(), alloy_rlp::encode(sample()));
    assert_eq!(header.hash_slow(), keccak256(alloy_rlp::encode(sample())).0);
    assert_eq!(header.hash_slow(), sample().hash_slow().0);
}

#[test]
fn the_hash_survives_encoding_and_decoding() {
    let first = RlpHeader::new(sample());
    let decoded = RlpHeader::decode(first.encode()).unwrap();
    assert_eq!(decoded.hash_slow(), first.hash_slow());
    assert_eq!(decoded.inner(), first.inner());
    // the decoded header hashes the encoding it holds, a new one encodes afresh
    let afresh = RlpHeader::new(decoded.inner().clone());
    assert_eq!(afresh.hash_slow(), decoded.hash_slow());
}

#[test]
fn a_header_comes_back_field_for_field_from_text() {
    let first = RlpHeader::new(sample());
    let text = text_of(first.serialize(true));
    assert!(text.starts_with("0x"));
    assert_eq!(text, format!("0x{}", alloy_primitives::hex::encode(first.encode())));
    let decoded = RlpHeader::deserialize(Wire::Text(text)).unwrap();
    assert_eq!(decoded.inner(), &sample());
    assert_eq!(decoded.into_inner(), sample());
}

#[test]
fn a_header_comes_back_field_for_field_from_bytes() {
    let first = RlpHeader::new(sample());
    let bytes = bytes_of(first.serialize(false));
    assert_eq!(bytes, alloy_rlp::encode(sample()));
    let decoded = RlpHeader::deserialize(Wire::Bytes(bytes.clone())).unwrap();
    assert_eq!(decoded.inner(), &sample());
    let listed = RlpHeader::deserialize(Wire::Elements(bytes)).unwrap();
    assert_eq!(listed.inner(), &sample());
    assert_eq!(listed.hash_slow(), first.hash_slow());
}

#[test]
fn text_is_read_with_or_without_prefix_and_in_either_case() {
    let encoding = RlpHeader::new(sample()).encode();
    let lower = alloy_primitives::hex::encode(&encoding);
    for text in [lower.clone(), lower.to_uppercase(), format!("0X{lower}")] {
        let decoded = RlpHeader::deserialize(Wire::Text(text)).unwrap();
        assert_eq!(decoded.inner(), &sample());
    }
    assert_eq!(RlpHeader::normalize(Wire::Text("0x0aFf10".to_string())).unwrap(), vec![0x0a, 0xff, 0x10]);
    assert_eq!(RlpHeader::normalize(Wire::Text(String::new())).unwrap(), Vec::<u8>::new());
    assert_eq!(RlpHeader::normalize(Wire::Bytes(vec![1, 2])).unwrap(), vec![1, 2]);
    assert_eq!(RlpHeader::normalize(Wire::Elements(vec![3])).unwrap(), vec![3]);
}

#[test]
fn text_that_is_no_hexadecimal_is_refused() {
    for text in ["0x123", "zz", "0x12 34", "12é4"] {
        let outcome = RlpHeader::deserialize(Wire::Text(text.to_string()));
        assert!(matches!(outcome, Err(DecodeError::Hex(_))), "{text}");
    }
}

#[test]
fn bytes_that_are_no_header_are_refused() {
    let encoding = RlpHeader::new(sample()).encode();
    let mut longer = encoding.clone();
    longer.push(0);
    let shorter = encoding[..encoding.len() - 1].to_vec();
    for bytes in [vec![], vec![0x80], vec![0xc0], longer, shorter] {
        assert!(matches!(RlpHeader::decode(bytes.clone()), Err(DecodeError::Rlp(_))));
        assert!(matches!(
            RlpHeader::deserialize(Wire::Bytes(bytes)),
            Err(DecodeError::Rlp(_))
        ));
    }
    assert!(matches!(
        RlpHeader::deserialize(Wire::Text("0x80".to_string())),
        Err(DecodeError::Rlp(_))
    ));
}

#[test]
fn a_change_of_the_header_changes_the_hash() {
    let mut header = RlpHeader::decode(alloy_rlp::encode(sample())).unwrap();
    let before = header.hash_slow();
    header.inner_mut().number += 1;
    let mut changed = sample();
    changed.number += 1;
    assert_eq!(header.inner(), &changed);
    assert_eq!(header.hash_slow(), changed.hash_slow().0);
    assert_ne!(header.hash_slow(), before);
}

#[test]
fn sealing_keeps_the_header_and_the_seal() {
    let header = RlpHeader::decode(alloy_rlp::encode(sample())).unwrap();
    let sealed = header.seal_unchecked([0xaa; 32]);
    assert_eq!(sealed.seal, [0xaa; 32]);
    assert_eq!(sealed.inner.inner(), &sample());
    assert_eq!(sealed.inner.hash_slow(), sample().hash_slow().0);
}

#[test]
fn number_and_state_root_are_read_from_the_header() {
    let header = RlpHeader::new(sample());
    assert_eq!(header.number(), 19_000_123);
    assert_eq!(header.state_root(), [0x22; 32]);
    let cloned = header.clone();
    assert_eq!(cloned.inner(), header.inner());
}
