use avail_core::block::{digest_from_hex, DigestItem};

#[test]
fn consensus_item_renders_engine_and_payload() {
    let item = DigestItem::Consensus([0x42, 0x41, 0x42, 0x45], vec![1, 2]);
    assert_eq!(item.to_human_readable(), "DigestItem::Consensus [ BABE \"0x0102\" ]");
}

#[test]
fn pre_runtime_and_seal_render_their_names() {
    let item = DigestItem::PreRuntime([0x42, 0x41, 0x42, 0x45], vec![]);
    assert_eq!(item.to_human_readable(), "DigestItem::PreRuntime [ BABE \"0x\" ]");
    let item = DigestItem::Seal([0x46, 0x52, 0x4e, 0x4b], vec![0xff]);
    assert_eq!(item.to_human_readable(), "DigestItem::Seal [ FRNK \"0xff\" ]");
}

#[test]
fn other_and_marker_render_without_engine() {
    let item = DigestItem::Other(vec![0xde, 0xad]);
    assert_eq!(item.to_human_readable(), "DigestItem::Other [ \"0xdead\" ]");
    let item = DigestItem::RuntimeEnvironmentUpdated;
    assert_eq!(item.to_human_readable(), "DigestItem::RuntimeEnvironmentUpdated");
}

#[test]
fn unprintable_engine_id_degrades_to_escaped_bytes() {
    let item = DigestItem::Consensus([0x00, 0x01, 0x02, 0x03], vec![]);
    assert_eq!(
        item.to_human_readable(),
        "DigestItem::Consensus [ 0x00010203 \"0x\" ]"
    );
}

#[test]
fn digest_renders_one_line_per_item() {
    let logs = vec!["0x08".to_string(), "0x0004ff".to_string()];
    let digest = digest_from_hex(&logs).expect("parses");
    assert_eq!(
        digest.to_human_readable(),
        "DigestItem::RuntimeEnvironmentUpdated\nDigestItem::Other [ \"0xff\" ]\n"
    );
}
