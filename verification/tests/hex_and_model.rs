use avail_core::block::{
    bytes_to_hex, digest_from_hex, h256_from_hex, number_from_hex, parse_block, parse_header,
    DataLookup, DataLookupItem, DigestItem, HeaderExtension, KateCommitment, V3HeaderExtension,
};
use avail_core::calls::{
    create_application_key, is_registered_call, make_call, submit_data, AlreadyEncoded,
    Dispatchable, Pallet,
};
use avail_core::errors::DecodeError;
use avail_core::hex_codec::{parse_hex_bytes, parse_hex_u32};
use avail_core::events::StorageChangeSet;
use avail_core::kate::{parse_data_proof, BlockLength, Cell, GProof, PreDispatchClass, U256};
use avail_core::{RuntimeVersion, H256};

use parity_scale_codec::Encode;

#[test]
fn hex_scalar_accepts_both_prefixes() {
    assert_eq!(parse_hex_u32("0x1a2b"), Ok(0x1a2b));
    assert_eq!(parse_hex_u32("1a2b"), Ok(0x1a2b));
}

#[test]
fn hex_scalar_is_case_insensitive() {
    assert_eq!(parse_hex_u32("1A2B"), Ok(0x1a2b));
    assert_eq!(parse_hex_u32("0x1a2B"), Ok(0x1a2b));
    assert_eq!(parse_hex_u32("0xDEADBEEF"), Ok(0xdeadbeef));
}

#[test]
fn hex_scalar_rejects_bad_characters() {
    assert_eq!(parse_hex_u32("1g"), Err(DecodeError::MalformedHex));
    assert_eq!(parse_hex_u32("0x"), Err(DecodeError::MalformedHex));
    assert_eq!(parse_hex_u32(""), Err(DecodeError::MalformedHex));
    assert_eq!(parse_hex_u32("0x12 34"), Err(DecodeError::MalformedHex));
}

#[test]
fn hex_scalar_rejects_overflow() {
    assert_eq!(parse_hex_u32("0xffffffff"), Ok(u32::MAX));
    assert_eq!(parse_hex_u32("0x100000000"), Err(DecodeError::MalformedHex));
    assert_eq!(parse_hex_u32("0x00000000ff"), Ok(255));
}

#[test]
fn header_number_decodes_as_hex_numeral() {
    assert_eq!(number_from_hex("0x0000002a"), Ok(42));
}

#[test]
fn hex_bytes_match_reference_decoder() {
    for s in ["", "00", "0102ff", "a1B2c3D4", "deadbeef00"] {
        let ours = parse_hex_bytes(s).expect("decodes");
        let reference = hex::decode(s).expect("reference decodes");
        assert_eq!(ours, reference, "hex decoding of {s:?}");
    }
    assert_eq!(parse_hex_bytes("abc"), Err(DecodeError::MalformedHex));
    assert_eq!(parse_hex_bytes("zz"), Err(DecodeError::MalformedHex));
}

#[test]
fn hex_rendering_matches_reference_encoder() {
    for data in [vec![], vec![0u8], vec![0xde, 0xad, 0xbe, 0xef], vec![1, 2, 3, 255]] {
        assert_eq!(bytes_to_hex(&data), hex::encode(&data));
    }
}

#[test]
fn gproof_accepts_exactly_48_bytes() {
    let proof = GProof::try_from(vec![7u8; 48]).expect("48 bytes accepted");
    assert_eq!(proof.to_vec(), vec![7u8; 48]);
}

#[test]
fn gproof_rejects_other_lengths_with_the_length() {
    assert_eq!(GProof::try_from(vec![]).unwrap_err(), 0);
    assert_eq!(GProof::try_from(vec![1u8; 47]).unwrap_err(), 47);
    assert_eq!(GProof::try_from(vec![1u8; 49]).unwrap_err(), 49);
    assert_eq!(GProof::try_from(vec![1u8; 96]).unwrap_err(), 96);
}

#[test]
fn submit_data_call_layout() {
    let args = String::from("hello").into_bytes();
    let call = submit_data(args.clone());
    let mut expected: Vec<u8> = vec![29, 1];
    expected.extend(args.encode());
    assert_eq!(call.encoded(), expected);
}

#[test]
fn create_application_key_call_layout() {
    let key = b"This is my key".to_vec();
    let call = create_application_key(key.clone());
    let mut expected: Vec<u8> = vec![29, 0];
    expected.extend(key.encode());
    assert_eq!(call.encoded(), expected);
}

#[test]
fn make_call_keeps_arguments_verbatim() {
    let call = make_call(29, 1, AlreadyEncoded(vec![0xaa, 0xbb]));
    assert_eq!(call.encoded(), vec![29, 1, 0xaa, 0xbb]);
}

#[test]
fn pallet_and_dispatchable_indices() {
    assert_eq!(Pallet::DataAvailability.index(), 29);
    assert_eq!(Dispatchable::CreateApplicationKey.index(), 0);
    assert_eq!(Dispatchable::SubmitData.index(), 1);
}

#[test]
fn call_registry_is_closed() {
    assert!(is_registered_call(29, 0));
    assert!(is_registered_call(29, 1));
    assert!(!is_registered_call(29, 2));
    assert!(!is_registered_call(28, 0));
    assert!(!is_registered_call(0, 0));
}

fn sample_extension() -> HeaderExtension {
    HeaderExtension::V3(V3HeaderExtension {
        app_lookup: DataLookup {
            size: 1,
            index: vec![DataLookupItem { app_id: 0, start: 0 }],
        },
        commitment: KateCommitment {
            rows: 1,
            cols: 4,
            commitment: vec![0xab; 48],
            data_root: H256([0u8; 32]),
        },
    })
}

#[test]
fn header_parses_from_raw_fields() {
    let zero32 = "0x".to_string() + &"00".repeat(32);
    let logs = vec!["0x06424142450c010203".to_string(), "0x08".to_string()];
    let header = parse_header(
        &zero32,
        "0x0000002a",
        &zero32,
        &zero32,
        &logs,
        sample_extension(),
    )
    .expect("parses");
    assert_eq!(header.number, 42);
    assert_eq!(header.parent_hash, H256([0u8; 32]));
    assert_eq!(header.digest.logs.len(), 2);
    assert_eq!(
        header.digest.logs[0],
        DigestItem::PreRuntime([0x42, 0x41, 0x42, 0x45], vec![1, 2, 3])
    );
    assert_eq!(header.digest.logs[1], DigestItem::RuntimeEnvironmentUpdated);
    assert_eq!(header.extension.tag(), 2);
}

#[test]
fn header_parse_aborts_on_first_bad_log() {
    let zero32 = "0x".to_string() + &"00".repeat(32);
    let logs = vec!["0x08".to_string(), "0x09".to_string()];
    let err = parse_header(
        &zero32,
        "0x2a",
        &zero32,
        &zero32,
        &logs,
        sample_extension(),
    )
    .unwrap_err();
    assert_eq!(err, DecodeError::UnknownDiscriminant(9));
}

#[test]
fn header_parse_rejects_wrong_root_length() {
    let short = "0x".to_string() + &"00".repeat(31);
    let zero32 = "0x".to_string() + &"00".repeat(32);
    let err = parse_header(
        &short,
        "0x2a",
        &zero32,
        &zero32,
        &vec![],
        sample_extension(),
    )
    .unwrap_err();
    assert_eq!(err, DecodeError::InvalidFixedSize(32, 31));
}

#[test]
fn digest_parses_in_log_order() {
    let logs = vec!["0x08".to_string(), "0x001011223344".to_string()];
    let digest = digest_from_hex(&logs).expect("parses");
    assert_eq!(digest.logs[0], DigestItem::RuntimeEnvironmentUpdated);
    assert_eq!(digest.logs[1], DigestItem::Other(vec![0x11, 0x22, 0x33, 0x44]));
}

#[test]
fn h256_requires_32_bytes() {
    let ok = h256_from_hex(&("0x".to_string() + &"11".repeat(32))).expect("parses");
    assert_eq!(ok, H256([0x11; 32]));
    assert_eq!(
        h256_from_hex("0xababab"),
        Err(DecodeError::InvalidFixedSize(32, 3))
    );
    assert_eq!(h256_from_hex("0xzz"), Err(DecodeError::MalformedHex));
}

#[test]
fn block_keeps_extrinsics_opaque() {
    let zero32 = "0x".to_string() + &"00".repeat(32);
    let header = parse_header(&zero32, "0x01", &zero32, &zero32, &vec![], sample_extension())
        .expect("parses");
    let extrinsics = vec!["0xdead".to_string(), "0xbeef".to_string()];
    let block = parse_block(header, extrinsics.clone());
    assert_eq!(block.extrinsics, extrinsics);
    assert_eq!(block.header.number, 1);
}

#[test]
fn data_proof_parses_from_raw_fields() {
    let root = |b: u8| "0x".to_string() + &format!("{b:02x}").repeat(32);
    let proof_path = vec![root(0xaa), root(0xbb)];
    let proof = parse_data_proof(&root(1), &root(2), &root(3), &proof_path, 4, 1, &root(9))
        .expect("parses");
    assert_eq!(proof.roots.data_root, H256([1; 32]));
    assert_eq!(proof.roots.blob_root, H256([2; 32]));
    assert_eq!(proof.roots.bridge_root, H256([3; 32]));
    assert_eq!(proof.proof, vec![H256([0xaa; 32]), H256([0xbb; 32])]);
    assert_eq!(proof.number_of_leaves, 4);
    assert_eq!(proof.leaf_index, 1);
    assert_eq!(proof.leaf, H256([9; 32]));
}

#[test]
fn data_proof_aborts_on_bad_path_entry() {
    let root = |b: u8| "0x".to_string() + &format!("{b:02x}").repeat(32);
    let proof_path = vec![root(0xaa), "0x1234".to_string()];
    let err = parse_data_proof(&root(1), &root(2), &root(3), &proof_path, 4, 1, &root(9))
        .unwrap_err();
    assert_eq!(err, DecodeError::InvalidFixedSize(32, 2));
}

#[test]
fn cell_carries_its_coordinates() {
    let cell = Cell { row: 3, col: 7 };
    assert_eq!(cell.row, 3);
    assert_eq!(cell.col, 7);
}

#[test]
fn model_types_hold_their_fields() {
    let version = RuntimeVersion {
        spec_name: "avail".to_string(),
        impl_name: "avail".to_string(),
        authoring_version: 12,
        spec_version: 44,
        impl_version: 0,
        apis: vec![("core".to_string(), 4)],
        transaction_version: 1,
        state_version: 1,
    };
    assert_eq!(version.spec_version, 44);
    assert_eq!(version.apis[0].1, 4);

    let scalar = U256([1, 2, 3, 4]);
    assert_eq!(scalar.0[3], 4);

    let length = BlockLength {
        max: PreDispatchClass { normal: 2_097_152, operational: 2_097_152, mandatory: 2_097_152 },
        cols: 256,
        rows: 256,
        chunk_size: 32,
    };
    assert_eq!(length.max.normal, 2_097_152);

    let changes = StorageChangeSet {
        block: "0xabcd".to_string(),
        changes: vec![vec!["0x01".to_string(), "0x02".to_string()]],
    };
    assert_eq!(changes.changes[0].len(), 2);
}
