use avail_core::block::{digest_item_from_hex, DigestItem};
use avail_core::errors::DecodeError;
use avail_core::events::Phase;
use avail_core::scale::{bytes_decode, bytes_encode_to, compact_u32_encode_to, u32_fixed_decode};

use parity_scale_codec::{Compact, Encode};

fn round_trip(item: DigestItem) {
    let encoded = item.encode();
    let (decoded, end) = DigestItem::decode(&encoded, 0).expect("round trip decodes");
    assert_eq!(decoded, item);
    assert_eq!(end, encoded.len());
}

#[test]
fn digest_item_round_trips() {
    round_trip(DigestItem::Other(vec![]));
    round_trip(DigestItem::Other(vec![9, 8, 7]));
    round_trip(DigestItem::Consensus([66, 65, 66, 69], vec![1, 2, 3]));
    round_trip(DigestItem::Seal([70, 82, 78, 75], vec![0; 70]));
    round_trip(DigestItem::PreRuntime([66, 65, 66, 69], vec![255]));
    round_trip(DigestItem::RuntimeEnvironmentUpdated);
}

#[test]
fn digest_item_encoding_matches_wire_format() {
    // The reference codec encodes the same shapes; the bytes must agree.
    let payload: Vec<u8> = vec![1, 2, 3];
    let id: [u8; 4] = [66, 65, 66, 69];
    let reference = (4u8, id, payload.clone()).encode();
    let ours = DigestItem::Consensus(id, payload).encode();
    assert_eq!(ours, reference);

    let payload: Vec<u8> = vec![7; 100];
    let reference = (0u8, payload.clone()).encode();
    let ours = DigestItem::Other(payload).encode();
    assert_eq!(ours, reference);
}

#[test]
fn consensus_item_from_hex() {
    // Tag 4, engine id 01 02 03 04, then a length-prefixed empty sequence.
    let item = digest_item_from_hex("0x0401020304000000").expect("decodes");
    assert_eq!(item, DigestItem::Consensus([1, 2, 3, 4], vec![]));
}

#[test]
fn runtime_environment_updated_from_hex() {
    let item = digest_item_from_hex("0x08").expect("decodes");
    assert_eq!(item, DigestItem::RuntimeEnvironmentUpdated);
    // The lone tag byte is all that is consumed.
    let (decoded, end) = DigestItem::decode(&[8u8], 0).expect("decodes");
    assert_eq!(decoded, DigestItem::RuntimeEnvironmentUpdated);
    assert_eq!(end, 1);
}

#[test]
fn unknown_digest_discriminant_is_reported() {
    assert_eq!(digest_item_from_hex("0x09"), Err(DecodeError::UnknownDiscriminant(9)));
    assert_eq!(
        DigestItem::decode(&[7u8, 0u8], 0),
        Err(DecodeError::UnknownDiscriminant(7))
    );
}

#[test]
fn truncated_digest_item_is_reported() {
    // Engine-carrying tag with only three id bytes behind it.
    assert_eq!(digest_item_from_hex("0x04010203"), Err(DecodeError::TruncatedInput));
    // Length prefix announcing more bytes than remain.
    assert_eq!(digest_item_from_hex("0x000c0102"), Err(DecodeError::TruncatedInput));
    // No tag byte at all.
    assert_eq!(digest_item_from_hex(""), Err(DecodeError::TruncatedInput));
}

#[test]
fn non_canonical_length_prefix_is_reported() {
    // Two-byte mode spelling a value that fits one byte.
    assert_eq!(digest_item_from_hex("0x000100"), Err(DecodeError::MalformedCompact));
}

#[test]
fn compact_encoding_matches_reference() {
    for v in [
        0u32,
        1,
        63,
        64,
        16383,
        16384,
        1_073_741_823,
        1_073_741_824,
        u32::MAX,
    ] {
        let mut ours: Vec<u8> = Vec::new();
        compact_u32_encode_to(v, &mut ours);
        assert_eq!(ours, Compact(v).encode(), "compact encoding of {v}");
    }
}

#[test]
fn length_prefixed_bytes_match_reference() {
    for len in [0usize, 1, 63, 64, 300, 20_000] {
        let data: Vec<u8> = (0..len).map(|i| (i % 251) as u8).collect();
        let mut ours: Vec<u8> = Vec::new();
        bytes_encode_to(&data, &mut ours);
        assert_eq!(ours, data.encode(), "length-prefixed encoding of {len} bytes");

        let (back, end) = bytes_decode(&ours, 0).expect("round trip decodes");
        assert_eq!(back, data);
        assert_eq!(end, ours.len());
    }
}

#[test]
fn phase_round_trips() {
    for phase in [
        Phase::ApplyExtrinsic(0),
        Phase::ApplyExtrinsic(1),
        Phase::ApplyExtrinsic(u32::MAX),
        Phase::Finalization,
        Phase::Initialization,
    ] {
        let encoded = phase.encode();
        let (decoded, end) = Phase::decode(&encoded, 0).expect("round trip decodes");
        assert_eq!(decoded, phase);
        assert_eq!(end, encoded.len());
    }
}

#[test]
fn phase_encoding_matches_wire_format() {
    let reference = (0u8, 300u32).encode();
    assert_eq!(Phase::ApplyExtrinsic(300).encode(), reference);
    assert_eq!(Phase::Finalization.encode(), vec![1]);
    assert_eq!(Phase::Initialization.encode(), vec![2]);
}

#[test]
fn unknown_phase_discriminant_is_reported() {
    assert_eq!(Phase::decode(&[3u8], 0), Err(DecodeError::UnknownDiscriminant(3)));
    assert_eq!(Phase::decode(&[255u8], 0), Err(DecodeError::UnknownDiscriminant(255)));
}

#[test]
fn truncated_phase_is_reported() {
    assert_eq!(Phase::decode(&[], 0), Err(DecodeError::TruncatedInput));
    assert_eq!(Phase::decode(&[0u8, 1, 0], 0), Err(DecodeError::TruncatedInput));
}

#[test]
fn phase_default_is_initialization() {
    assert_eq!(Phase::default(), Phase::Initialization);
}

#[test]
fn decode_works_mid_buffer() {
    // Two items back to back: the second decode starts where the first
    // stopped.
    let mut bytes = DigestItem::RuntimeEnvironmentUpdated.encode();
    bytes.extend(DigestItem::Other(vec![5]).encode());
    let (first, mid) = DigestItem::decode(&bytes, 0).expect("first decodes");
    assert_eq!(first, DigestItem::RuntimeEnvironmentUpdated);
    let (second, end) = DigestItem::decode(&bytes, mid).expect("second decodes");
    assert_eq!(second, DigestItem::Other(vec![5]));
    assert_eq!(end, bytes.len());
}

#[test]
fn fixed_u32_decode_is_little_endian() {
    let ref_bytes = 0x2a000000u32.encode();
    let (v, end) = u32_fixed_decode(&ref_bytes, 0).expect("decodes");
    assert_eq!(v, 0x2a000000);
    assert_eq!(end, 4);
    let (v, _) = u32_fixed_decode(&[0x2a, 0, 0, 0], 0).expect("decodes");
    assert_eq!(v, 42);
}
