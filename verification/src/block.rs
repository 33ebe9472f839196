//! Block, header and digest types, and the discriminant-tagged binary
//! codec for digest items.
//!
//! A digest item is encoded as one tag byte from the declared discriminant
//! table, then the variant's payload: engine-carrying variants hold a
//! fixed four-byte engine id followed by a length-prefixed byte sequence,
//! `Other` holds a length-prefixed byte sequence alone, and
//! `RuntimeEnvironmentUpdated` has no payload. A tag outside the table is
//! a decode failure, never a default variant: silently mapping unknown
//! future tags to an existing variant would corrupt downstream
//! interpretation.

use vstd::array::ArrayAdditionalExecFns;
use vstd::prelude::*;
use vstd::string::{StrSliceExecFns, StringExecFns};

use crate::errors::DecodeError;
use crate::hex_codec::{parse_hex_bytes, parse_hex_u32, spec_parse_hex_bytes, spec_parse_hex_u32};
use crate::scale::{
    bytes_decode, bytes_encode_to, lemma_bytes_decode_sound, lemma_bytes_round_trip,
    spec_bytes_decode, spec_bytes_encode,
};
use crate::H256;

verus! {

/// Consensus engine unique id.
pub type ConsensusEngineId = [u8; 4];

/// Wire tag for `DigestItem::Other`.
pub const DIGEST_TAG_OTHER: u8 = 0;

/// Wire tag for `DigestItem::Consensus`.
pub const DIGEST_TAG_CONSENSUS: u8 = 4;

/// Wire tag for `DigestItem::Seal`.
pub const DIGEST_TAG_SEAL: u8 = 5;

/// Wire tag for `DigestItem::PreRuntime`.
pub const DIGEST_TAG_PRE_RUNTIME: u8 = 6;

/// Wire tag for `DigestItem::RuntimeEnvironmentUpdated`.
pub const DIGEST_TAG_RUNTIME_ENVIRONMENT_UPDATED: u8 = 8;

/// One per-block log entry recording consensus-engine metadata.
#[derive(Debug, Clone, PartialEq, Eq)]
pub enum DigestItem {
    PreRuntime(ConsensusEngineId, Vec<u8>),
    Consensus(ConsensusEngineId, Vec<u8>),
    Seal(ConsensusEngineId, Vec<u8>),
    Other(Vec<u8>),
    RuntimeEnvironmentUpdated,
}

/// The mathematical shape of a digest item: each byte field as a sequence.
#[verifier::ext_equal]
pub enum DigestItemView {
    PreRuntime(Seq<u8>, Seq<u8>),
    Consensus(Seq<u8>, Seq<u8>),
    Seal(Seq<u8>, Seq<u8>),
    Other(Seq<u8>),
    RuntimeEnvironmentUpdated,
}

impl View for DigestItem {
    type V = DigestItemView;

    open spec fn view(&self) -> DigestItemView {
        match self {
            DigestItem::PreRuntime(id, data) => DigestItemView::PreRuntime(id@, data@),
            DigestItem::Consensus(id, data) => DigestItemView::Consensus(id@, data@),
            DigestItem::Seal(id, data) => DigestItemView::Seal(id@, data@),
            DigestItem::Other(data) => DigestItemView::Other(data@),
            DigestItem::RuntimeEnvironmentUpdated => DigestItemView::RuntimeEnvironmentUpdated,
        }
    }
}

/// The one-byte wire discriminant of each variant. Both the encoder and
/// the decoder go through this single table, so the two cannot drift.
pub open spec fn digest_item_tag(v: DigestItemView) -> u8 {
    match v {
        DigestItemView::PreRuntime(_, _) => DIGEST_TAG_PRE_RUNTIME,
        DigestItemView::Consensus(_, _) => DIGEST_TAG_CONSENSUS,
        DigestItemView::Seal(_, _) => DIGEST_TAG_SEAL,
        DigestItemView::Other(_) => DIGEST_TAG_OTHER,
        DigestItemView::RuntimeEnvironmentUpdated => DIGEST_TAG_RUNTIME_ENVIRONMENT_UPDATED,
    }
}

/// The variant carrying an engine id that a given tag selects.
pub open spec fn digest_item_with_engine(tag: u8, id: Seq<u8>, data: Seq<u8>) -> DigestItemView
    recommends
        tag == DIGEST_TAG_CONSENSUS || tag == DIGEST_TAG_SEAL || tag == DIGEST_TAG_PRE_RUNTIME,
{
    if tag == DIGEST_TAG_CONSENSUS {
        DigestItemView::Consensus(id, data)
    } else if tag == DIGEST_TAG_SEAL {
        DigestItemView::Seal(id, data)
    } else {
        DigestItemView::PreRuntime(id, data)
    }
}

/// Well-formed digest items: the engine id is exactly four bytes and the
/// payload length fits the 32-bit length prefix. Every value built from
/// the executable type satisfies this up to the payload bound.
pub open spec fn digest_item_view_wf(v: DigestItemView) -> bool {
    match v {
        DigestItemView::PreRuntime(id, data) => id.len() == 4 && data.len() <= u32::MAX,
        DigestItemView::Consensus(id, data) => id.len() == 4 && data.len() <= u32::MAX,
        DigestItemView::Seal(id, data) => id.len() == 4 && data.len() <= u32::MAX,
        DigestItemView::Other(data) => data.len() <= u32::MAX,
        DigestItemView::RuntimeEnvironmentUpdated => true,
    }
}

/// The binary encoding of a digest item: its tag, then its payload.
pub open spec fn spec_digest_item_encode(v: DigestItemView) -> Seq<u8>
    recommends
        digest_item_view_wf(v),
{
    match v {
        DigestItemView::PreRuntime(id, data) => seq![digest_item_tag(v)] + id + spec_bytes_encode(
            data,
        ),
        DigestItemView::Consensus(id, data) => seq![digest_item_tag(v)] + id + spec_bytes_encode(
            data,
        ),
        DigestItemView::Seal(id, data) => seq![digest_item_tag(v)] + id + spec_bytes_encode(data),
        DigestItemView::Other(data) => seq![digest_item_tag(v)] + spec_bytes_encode(data),
        DigestItemView::RuntimeEnvironmentUpdated => seq![digest_item_tag(v)],
    }
}

/// Reads one digest item at `pos`: one tag byte, then the fields that the
/// tag's variant requires. A tag outside the declared set yields
/// `UnknownDiscriminant` carrying that tag.
pub open spec fn spec_digest_item_decode(s: Seq<u8>, pos: int) -> Result<
    (DigestItemView, int),
    DecodeError,
> {
    if pos >= s.len() {
        Err(DecodeError::TruncatedInput)
    } else {
        let tag = s[pos];
        if tag == DIGEST_TAG_OTHER {
            match spec_bytes_decode(s, pos + 1) {
                Ok((data, end)) => Ok((DigestItemView::Other(data), end)),
                Err(e) => Err(e),
            }
        } else if tag == DIGEST_TAG_CONSENSUS || tag == DIGEST_TAG_SEAL || tag
            == DIGEST_TAG_PRE_RUNTIME {
            if pos + 5 > s.len() {
                Err(DecodeError::TruncatedInput)
            } else {
                let id = s.subrange(pos + 1, pos + 5);
                match spec_bytes_decode(s, pos + 5) {
                    Ok((data, end)) => Ok((digest_item_with_engine(tag, id, data), end)),
                    Err(e) => Err(e),
                }
            }
        } else if tag == DIGEST_TAG_RUNTIME_ENVIRONMENT_UPDATED {
            Ok((DigestItemView::RuntimeEnvironmentUpdated, pos + 1))
        } else {
            Err(DecodeError::UnknownDiscriminant(tag))
        }
    }
}

impl DigestItem {
    /// Decodes one digest item from `s` starting at `pos`, returning the
    /// item and the position just past the bytes it consumed.
    pub fn decode(s: &[u8], pos: usize) -> (r: Result<(DigestItem, usize), DecodeError>)
        ensures
            match r {
                Ok((item, end)) => spec_digest_item_decode(s@, pos as int) == Ok::<
                    (DigestItemView, int),
                    DecodeError,
                >((item@, end as int)) && pos < end <= s@.len(),
                Err(e) => spec_digest_item_decode(s@, pos as int) == Err::<
                    (DigestItemView, int),
                    DecodeError,
                >(e),
            },
    {
        if pos >= s.len() {
            return Err(DecodeError::TruncatedInput);
        }
        let tag: u8 = s[pos];
        if tag == DIGEST_TAG_OTHER {
            match bytes_decode(s, pos + 1) {
                Ok((data, end)) => Ok((DigestItem::Other(data), end)),
                Err(e) => Err(e),
            }
        } else if tag == DIGEST_TAG_CONSENSUS || tag == DIGEST_TAG_SEAL || tag
            == DIGEST_TAG_PRE_RUNTIME {
            if s.len() - pos < 5 {
                return Err(DecodeError::TruncatedInput);
            }
            let id: ConsensusEngineId = [s[pos + 1], s[pos + 2], s[pos + 3], s[pos + 4]];
            assert(id@ =~= s@.subrange(pos + 1, pos + 5));
            match bytes_decode(s, pos + 5) {
                Ok((data, end)) => {
                    if tag == DIGEST_TAG_CONSENSUS {
                        Ok((DigestItem::Consensus(id, data), end))
                    } else if tag == DIGEST_TAG_SEAL {
                        Ok((DigestItem::Seal(id, data), end))
                    } else {
                        Ok((DigestItem::PreRuntime(id, data), end))
                    }
                },
                Err(e) => Err(e),
            }
        } else if tag == DIGEST_TAG_RUNTIME_ENVIRONMENT_UPDATED {
            Ok((DigestItem::RuntimeEnvironmentUpdated, pos + 1))
        } else {
            Err(DecodeError::UnknownDiscriminant(tag))
        }
    }

    /// Encodes this digest item: the tag from the discriminant table, then
    /// the variant's payload, mirroring `decode` exactly.
    pub fn encode(&self) -> (r: Vec<u8>)
        requires
            digest_item_view_wf(self@),
        ensures
            r@ == spec_digest_item_encode(self@),
    {
        let mut out: Vec<u8> = Vec::new();
        match self {
            DigestItem::PreRuntime(id, data) => {
                out.push(DIGEST_TAG_PRE_RUNTIME);
                out.push(id[0]);
                out.push(id[1]);
                out.push(id[2]);
                out.push(id[3]);
                assert(out@ =~= seq![digest_item_tag(self@)] + id@);
                bytes_encode_to(data.as_slice(), &mut out);
                assert(out@ =~= spec_digest_item_encode(self@));
            },
            DigestItem::Consensus(id, data) => {
                out.push(DIGEST_TAG_CONSENSUS);
                out.push(id[0]);
                out.push(id[1]);
                out.push(id[2]);
                out.push(id[3]);
                assert(out@ =~= seq![digest_item_tag(self@)] + id@);
                bytes_encode_to(data.as_slice(), &mut out);
                assert(out@ =~= spec_digest_item_encode(self@));
            },
            DigestItem::Seal(id, data) => {
                out.push(DIGEST_TAG_SEAL);
                out.push(id[0]);
                out.push(id[1]);
                out.push(id[2]);
                out.push(id[3]);
                assert(out@ =~= seq![digest_item_tag(self@)] + id@);
                bytes_encode_to(data.as_slice(), &mut out);
                assert(out@ =~= spec_digest_item_encode(self@));
            },
            DigestItem::Other(data) => {
                out.push(DIGEST_TAG_OTHER);
                bytes_encode_to(data.as_slice(), &mut out);
                assert(out@ =~= spec_digest_item_encode(self@));
            },
            DigestItem::RuntimeEnvironmentUpdated => {
                out.push(DIGEST_TAG_RUNTIME_ENVIRONMENT_UPDATED);
                assert(out@ =~= spec_digest_item_encode(self@));
            },
        }
        out
    }
}

/// Law: for every well-formed digest item, decoding its encoding yields
/// the item back and consumes exactly the encoding.
pub proof fn lemma_digest_item_round_trip(v: DigestItemView)
    requires
        digest_item_view_wf(v),
    ensures
        spec_digest_item_decode(spec_digest_item_encode(v), 0) == Ok::<
            (DigestItemView, int),
            DecodeError,
        >((v, spec_digest_item_encode(v).len() as int)),
{
    let s = spec_digest_item_encode(v);
    match v {
        DigestItemView::PreRuntime(id, data) => {
            lemma_digest_item_engine_round_trip(v, id, data);
        },
        DigestItemView::Consensus(id, data) => {
            lemma_digest_item_engine_round_trip(v, id, data);
        },
        DigestItemView::Seal(id, data) => {
            lemma_digest_item_engine_round_trip(v, id, data);
        },
        DigestItemView::Other(data) => {
            assert(s.subrange(1, s.len() as int) =~= spec_bytes_encode(data));
            lemma_bytes_round_trip(s, 1, data);
        },
        DigestItemView::RuntimeEnvironmentUpdated => {},
    }
}

/// The engine-carrying cases of the round-trip law share one argument:
/// the tag is in the table, the id is the four bytes after it, and the
/// payload round-trips through the length-prefixed encoding.
proof fn lemma_digest_item_engine_round_trip(v: DigestItemView, id: Seq<u8>, data: Seq<u8>)
    requires
        digest_item_view_wf(v),
        v == DigestItemView::PreRuntime(id, data) || v == DigestItemView::Consensus(id, data) || v
            == DigestItemView::Seal(id, data),
    ensures
        spec_digest_item_decode(spec_digest_item_encode(v), 0) == Ok::<
            (DigestItemView, int),
            DecodeError,
        >((v, spec_digest_item_encode(v).len() as int)),
{
    let s = spec_digest_item_encode(v);
    let tag = digest_item_tag(v);
    assert(s[0] == tag);
    assert(s.subrange(1, 5) =~= id);
    assert(s.subrange(5, s.len() as int) =~= spec_bytes_encode(data));
    lemma_bytes_round_trip(s, 5, data);
    assert(digest_item_with_engine(tag, s.subrange(1, 5), data) =~= v);
}

/// Law: whatever the digest-item decoder accepts is exactly the encoding
/// of the well-formed item it returns; with the round-trip law this pins
/// the decoder to the encoder's output and nothing else.
pub proof fn lemma_digest_item_decode_sound(s: Seq<u8>, pos: int, v: DigestItemView, end: int)
    requires
        0 <= pos,
        spec_digest_item_decode(s, pos) == Ok::<(DigestItemView, int), DecodeError>((v, end)),
    ensures
        digest_item_view_wf(v),
        s.subrange(pos, end) == spec_digest_item_encode(v),
{
    let tag = s[pos];
    if tag == DIGEST_TAG_OTHER {
        let r = spec_bytes_decode(s, pos + 1);
        let data = r->Ok_0.0;
        lemma_bytes_decode_sound(s, pos + 1, data, end);
        assert(s.subrange(pos, end) =~= seq![tag] + s.subrange(pos + 1, end));
    } else if tag == DIGEST_TAG_CONSENSUS || tag == DIGEST_TAG_SEAL || tag
        == DIGEST_TAG_PRE_RUNTIME {
        let id = s.subrange(pos + 1, pos + 5);
        let r = spec_bytes_decode(s, pos + 5);
        let data = r->Ok_0.0;
        lemma_bytes_decode_sound(s, pos + 5, data, end);
        assert(s.subrange(pos, end) =~= seq![tag] + id + s.subrange(pos + 5, end));
    } else {
        assert(s.subrange(pos, end) =~= seq![tag]);
    }
}

/// Law: a first byte outside the declared tag set decodes to
/// `UnknownDiscriminant` carrying that byte, never to a default variant.
pub proof fn lemma_digest_item_unknown_discriminant(s: Seq<u8>, pos: int)
    requires
        0 <= pos < s.len(),
        s[pos] != DIGEST_TAG_OTHER,
        s[pos] != DIGEST_TAG_CONSENSUS,
        s[pos] != DIGEST_TAG_SEAL,
        s[pos] != DIGEST_TAG_PRE_RUNTIME,
        s[pos] != DIGEST_TAG_RUNTIME_ENVIRONMENT_UPDATED,
    ensures
        spec_digest_item_decode(s, pos) == Err::<(DigestItemView, int), DecodeError>(
            DecodeError::UnknownDiscriminant(s[pos]),
        ),
{
}

/// Parses one digest log entry: a hex string holding one binary-encoded
/// digest item. Bytes past the one item are left alone, as the node sends
/// exactly one item per log entry.
pub open spec fn spec_digest_item_from_hex(s: Seq<char>) -> Result<DigestItemView, DecodeError> {
    match spec_parse_hex_bytes(s) {
        Ok(bytes) => match spec_digest_item_decode(bytes, 0) {
            Ok((item, end)) => Ok(item),
            Err(e) => Err(e),
        },
        Err(e) => Err(e),
    }
}

/// Hex-decodes one digest log entry and binary-decodes the digest item in
/// it.
pub fn digest_item_from_hex(s: &str) -> (r: Result<DigestItem, DecodeError>)
    ensures
        match r {
            Ok(item) => spec_digest_item_from_hex(s@) == Ok::<DigestItemView, DecodeError>(item@),
            Err(e) => spec_digest_item_from_hex(s@) == Err::<DigestItemView, DecodeError>(e),
        },
{
    let bytes: Vec<u8> = match parse_hex_bytes(s) {
        Ok(b) => b,
        Err(e) => {
            return Err(e);
        },
    };
    match DigestItem::decode(bytes.as_slice(), 0) {
        Ok((item, _end)) => Ok(item),
        Err(e) => Err(e),
    }
}

/// The views of a sequence of owned strings.
pub open spec fn log_views(logs: Seq<String>) -> Seq<Seq<char>> {
    logs.map_values(|s: String| s@)
}

/// The views of a sequence of digest items.
pub open spec fn item_views(items: Seq<DigestItem>) -> Seq<DigestItemView> {
    items.map_values(|d: DigestItem| d@)
}

/// Parses an ordered run of digest log entries; the first failure aborts
/// the whole run, so no partial digest is ever produced.
pub open spec fn spec_digest_from_hex(logs: Seq<Seq<char>>) -> Result<
    Seq<DigestItemView>,
    DecodeError,
>
    decreases logs.len(),
{
    if logs.len() == 0 {
        Ok(Seq::empty())
    } else {
        match spec_digest_from_hex(logs.drop_last()) {
            Ok(items) => match spec_digest_item_from_hex(logs.last()) {
                Ok(item) => Ok(items.push(item)),
                Err(e) => Err(e),
            },
            Err(e) => Err(e),
        }
    }
}

/// An erring entry makes the whole run err with that entry's failure,
/// whatever follows it.
proof fn lemma_digest_from_hex_err(logs: Seq<Seq<char>>, j: int, e: DecodeError)
    requires
        0 <= j < logs.len(),
        spec_digest_from_hex(logs.take(j)) is Ok,
        spec_digest_item_from_hex(logs[j]) == Err::<DigestItemView, DecodeError>(e),
    ensures
        spec_digest_from_hex(logs) == Err::<Seq<DigestItemView>, DecodeError>(e),
    decreases logs.len(),
{
    if logs.len() == j + 1 {
        assert(logs.drop_last() =~= logs.take(j));
    } else {
        assert(logs.drop_last().take(j) =~= logs.take(j));
        lemma_digest_from_hex_err(logs.drop_last(), j, e);
    }
}

/// The ordered digest of one block, in chain log order; constructed once
/// per header fetch and immutable thereafter.
#[derive(Debug, Clone, PartialEq, Eq)]
pub struct Digest {
    pub logs: Vec<DigestItem>,
}

impl View for Digest {
    type V = Seq<DigestItemView>;

    open spec fn view(&self) -> Seq<DigestItemView> {
        item_views(self.logs@)
    }
}

/// Parses a digest from the node's hex log entries. Any hex or
/// discriminant failure aborts the whole digest.
pub fn digest_from_hex(logs: &Vec<String>) -> (r: Result<Digest, DecodeError>)
    ensures
        match r {
            Ok(d) => spec_digest_from_hex(log_views(logs@)) == Ok::<
                Seq<DigestItemView>,
                DecodeError,
            >(d@),
            Err(e) => spec_digest_from_hex(log_views(logs@)) == Err::<
                Seq<DigestItemView>,
                DecodeError,
            >(e),
        },
{
    let ghost all = log_views(logs@);
    let mut items: Vec<DigestItem> = Vec::new();
    proof {
        assert(all.take(0) =~= Seq::<Seq<char>>::empty());
        assert(item_views(items@) =~= Seq::<DigestItemView>::empty());
    }
    let mut i: usize = 0;
    while i < logs.len()
        invariant
            i <= logs@.len(),
            all == log_views(logs@),
            spec_digest_from_hex(all.take(i as int)) == Ok::<Seq<DigestItemView>, DecodeError>(
                item_views(items@),
            ),
        decreases logs@.len() - i,
    {
        let entry: &String = &logs[i];
        let ghost prev_items = items@;
        match digest_item_from_hex(entry.as_str()) {
            Ok(item) => {
                items.push(item);
                proof {
                    assert(all[i as int] == logs@[i as int]@);
                    assert(all.take(i as int + 1).drop_last() =~= all.take(i as int));
                    assert(all.take(i as int + 1).last() == all[i as int]);
                    assert(item_views(items@) =~= item_views(prev_items).push(item@));
                    assert(spec_digest_from_hex(all.take(i as int + 1)) == Ok::<
                        Seq<DigestItemView>,
                        DecodeError,
                    >(item_views(items@)));
                }
            },
            Err(e) => {
                proof {
                    assert(all[i as int] == logs@[i as int]@);
                    assert(all.take(i as int) =~= all.take(i as int));
                    lemma_digest_from_hex_err(all, i as int, e);
                }
                return Err(e);
            },
        }
        i = i + 1;
    }
    proof {
        assert(all.take(logs@.len() as int) =~= all);
    }
    Ok(Digest { logs: items })
}

/// Parses a hex string as a 32-byte digest; a well-formed hex string of
/// any other byte length is an `InvalidFixedSize` failure carrying the
/// expected and the actual length.
pub open spec fn spec_h256_from_hex(s: Seq<char>) -> Result<Seq<u8>, DecodeError> {
    match spec_parse_hex_bytes(s) {
        Ok(b) => {
            if b.len() == 32 {
                Ok(b)
            } else {
                Err(DecodeError::InvalidFixedSize(32, b.len() as u32))
            }
        },
        Err(e) => Err(e),
    }
}

/// Hex-decodes a 32-byte digest.
pub fn h256_from_hex(s: &str) -> (r: Result<H256, DecodeError>)
    ensures
        match r {
            Ok(h) => spec_h256_from_hex(s@) == Ok::<Seq<u8>, DecodeError>(h.0@),
            Err(e) => spec_h256_from_hex(s@) == Err::<Seq<u8>, DecodeError>(e),
        },
{
    let bytes: Vec<u8> = match parse_hex_bytes(s) {
        Ok(b) => b,
        Err(e) => {
            return Err(e);
        },
    };
    if bytes.len() != 32 {
        return Err(DecodeError::InvalidFixedSize(32, bytes.len() as u32));
    }
    let mut out: [u8; 32] = [0u8; 32];
    let mut i: usize = 0;
    while i < 32
        invariant
            i <= 32,
            bytes@.len() == 32,
            out@.len() == 32,
            forall|j: int| 0 <= j < i ==> out@[j] == bytes@[j],
        decreases 32 - i,
    {
        out.set(i, bytes[i]);
        i = i + 1;
    }
    assert(out@ =~= bytes@);
    Ok(H256(out))
}

/// An application's region of the block's data matrix: its id and the
/// start offset of its data.
#[derive(Debug, Clone, Copy, PartialEq, Eq, Structural)]
pub struct DataLookupItem {
    pub app_id: u32,
    pub start: u32,
}

/// The app-id to start-offset index of the block's data, sorted and keyed
/// by app id, with the total size.
#[derive(Debug, Clone, PartialEq, Eq)]
pub struct DataLookup {
    pub size: u32,
    pub index: Vec<DataLookupItem>,
}

/// The commitment to the erasure-coded block data matrix: its dimensions,
/// the opaque commitment bytes, and the Merkle root of the submitted data.
#[derive(Debug, Clone, PartialEq, Eq)]
pub struct KateCommitment {
    pub rows: u16,
    pub cols: u16,
    pub commitment: Vec<u8>,
    pub data_root: H256,
}

/// The payload of the live header-extension version.
#[derive(Debug, Clone, PartialEq, Eq)]
pub struct V3HeaderExtension {
    pub app_lookup: DataLookup,
    pub commitment: KateCommitment,
}

/// Wire tag for `HeaderExtension::V3`; other tag values are reserved for
/// future versions and must not be silently coerced.
pub const HEADER_EXTENSION_TAG_V3: u8 = 2;

/// The versioned header extension; exactly one version is live.
#[derive(Debug, Clone, PartialEq, Eq)]
pub enum HeaderExtension {
    V3(V3HeaderExtension),
}

/// The one-byte wire discriminant of each header-extension version.
pub open spec fn header_extension_tag(e: &HeaderExtension) -> u8 {
    match e {
        HeaderExtension::V3(_) => HEADER_EXTENSION_TAG_V3,
    }
}

impl HeaderExtension {
    /// The wire discriminant of this version.
    pub fn tag(&self) -> (r: u8)
        ensures
            r == header_extension_tag(self),
    {
        match self {
            HeaderExtension::V3(_) => HEADER_EXTENSION_TAG_V3,
        }
    }
}

/// One block header: parent link, height, state and extrinsics roots, the
/// consensus digest, and the chain's header extension.
#[derive(Debug, Clone, PartialEq, Eq)]
pub struct Header {
    pub parent_hash: H256,
    pub number: u32,
    pub state_root: H256,
    pub extrinsics_root: H256,
    pub digest: Digest,
    pub extension: HeaderExtension,
}

/// Builds a header from the raw field shapes the node sends: hex strings
/// for the three roots and the height, hex log entries for the digest.
/// The first failing field aborts the parse, roots first, then the
/// height, then the digest.
pub fn parse_header(
    parent_hash: &str,
    number: &str,
    state_root: &str,
    extrinsics_root: &str,
    logs: &Vec<String>,
    extension: HeaderExtension,
) -> (r: Result<Header, DecodeError>)
    ensures
        match r {
            Ok(h) => {
                &&& spec_h256_from_hex(parent_hash@) == Ok::<Seq<u8>, DecodeError>(h.parent_hash.0@)
                &&& spec_parse_hex_u32(number@) == Ok::<u32, DecodeError>(h.number)
                &&& spec_h256_from_hex(state_root@) == Ok::<Seq<u8>, DecodeError>(h.state_root.0@)
                &&& spec_h256_from_hex(extrinsics_root@) == Ok::<Seq<u8>, DecodeError>(
                    h.extrinsics_root.0@,
                )
                &&& spec_digest_from_hex(log_views(logs@)) == Ok::<Seq<DigestItemView>, DecodeError>(
                    h.digest@,
                )
                &&& h.extension == extension
            },
            Err(e) => {
                ||| spec_h256_from_hex(parent_hash@) == Err::<Seq<u8>, DecodeError>(e)
                ||| (spec_h256_from_hex(parent_hash@) is Ok && spec_h256_from_hex(state_root@)
                    == Err::<Seq<u8>, DecodeError>(e))
                ||| (spec_h256_from_hex(parent_hash@) is Ok && spec_h256_from_hex(state_root@) is Ok
                    && spec_h256_from_hex(extrinsics_root@) == Err::<Seq<u8>, DecodeError>(e))
                ||| (spec_h256_from_hex(parent_hash@) is Ok && spec_h256_from_hex(state_root@) is Ok
                    && spec_h256_from_hex(extrinsics_root@) is Ok && spec_parse_hex_u32(number@)
                    == Err::<u32, DecodeError>(e))
                ||| (spec_h256_from_hex(parent_hash@) is Ok && spec_h256_from_hex(state_root@) is Ok
                    && spec_h256_from_hex(extrinsics_root@) is Ok && spec_parse_hex_u32(number@)
                    is Ok && spec_digest_from_hex(log_views(logs@)) == Err::<
                    Seq<DigestItemView>,
                    DecodeError,
                >(e))
            },
        },
{
    let parent_hash: H256 = match h256_from_hex(parent_hash) {
        Ok(h) => h,
        Err(e) => {
            return Err(e);
        },
    };
    let state_root: H256 = match h256_from_hex(state_root) {
        Ok(h) => h,
        Err(e) => {
            return Err(e);
        },
    };
    let extrinsics_root: H256 = match h256_from_hex(extrinsics_root) {
        Ok(h) => h,
        Err(e) => {
            return Err(e);
        },
    };
    let number: u32 = match parse_hex_u32(number) {
        Ok(n) => n,
        Err(e) => {
            return Err(e);
        },
    };
    let digest: Digest = match digest_from_hex(logs) {
        Ok(d) => d,
        Err(e) => {
            return Err(e);
        },
    };
    Ok(Header { parent_hash, number, state_root, extrinsics_root, digest, extension })
}

/// Parses a header's `number` field: a hex numeral with an optional `0x`
/// prefix, not byte-swapped.
pub fn number_from_hex(s: &str) -> (r: Result<u32, DecodeError>)
    ensures
        r == spec_parse_hex_u32(s@),
{
    parse_hex_u32(s)
}

/// One block: its header and its extrinsics, each extrinsic left as the
/// raw encoded string the node sent (extrinsic bodies are decoded
/// elsewhere).
#[derive(Debug, Clone, PartialEq, Eq)]
pub struct Block {
    pub header: Header,
    pub extrinsics: Vec<String>,
}

/// Assembles a block from its parsed header and its opaque extrinsic
/// strings, both kept as handed in.
pub fn parse_block(header: Header, extrinsics: Vec<String>) -> (r: Block)
    ensures
        r.header == header,
        r.extrinsics == extrinsics,
{
    Block { header, extrinsics }
}

/// The encoded justification specific to a consensus engine.
pub type EncodedJustification = Vec<u8>;

/// An abstraction over a justification for a block's validity under a
/// consensus algorithm; essentially a finality proof.
pub type Justification = (ConsensusEngineId, EncodedJustification);

/// The justifications attached to a finalized block.
#[derive(Debug, Clone, PartialEq, Eq)]
pub struct Justifications(pub Vec<Justification>);

/// A block together with the justifications the node attached to it.
#[derive(Debug, Clone, PartialEq, Eq)]
pub struct SignedBlock {
    pub block: Block,
    pub justifications: Option<Justifications>,
}

/// The lower-case hexadecimal digit of a value below sixteen. The
/// renderer draws from the same sixteen-character table.
pub open spec fn hex_char(d: u8) -> char
    recommends
        d < 16,
{
    "0123456789abcdef"@[d as int]
}

/// The lower-case hexadecimal spelling of a run of bytes, two digits per
/// byte, high digit first.
pub open spec fn hex_chars(bytes: Seq<u8>) -> Seq<char>
    decreases bytes.len(),
{
    if bytes.len() == 0 {
        Seq::empty()
    } else {
        hex_chars(bytes.drop_last()) + seq![
            hex_char((bytes.last() / 16) as u8),
            hex_char((bytes.last() % 16) as u8),
        ]
    }
}

/// Appends the two hexadecimal digits of one byte to `out`.
fn push_hex_byte(out: &mut String, b: u8)
    ensures
        final(out)@ == old(out)@ + seq![hex_char((b / 16) as u8), hex_char((b % 16) as u8)],
{
    let table: &str = "0123456789abcdef";
    proof {
        reveal_strlit("0123456789abcdef");
    }
    let hi: usize = (b / 16) as usize;
    let lo: usize = (b % 16) as usize;
    let c1: &str = table.substring_char(hi, hi + 1);
    assert(c1@ =~= seq![hex_char((b / 16) as u8)]);
    out.append(c1);
    let c2: &str = table.substring_char(lo, lo + 1);
    assert(c2@ =~= seq![hex_char((b % 16) as u8)]);
    out.append(c2);
    assert(final(out)@ =~= old(out)@ + seq![
        hex_char((b / 16) as u8),
        hex_char((b % 16) as u8),
    ]);
}

/// Renders a run of bytes as lower-case hexadecimal digits, without a
/// prefix.
pub fn bytes_to_hex(bytes: &[u8]) -> (r: String)
    ensures
        r@ == hex_chars(bytes@),
{
    let mut out: String = String::new();
    let mut i: usize = 0;
    while i < bytes.len()
        invariant
            i <= bytes@.len(),
            out@ == hex_chars(bytes@.take(i as int)),
        decreases bytes@.len() - i,
    {
        push_hex_byte(&mut out, bytes[i]);
        i = i + 1;
        proof {
            assert(bytes@.take(i as int).drop_last() =~= bytes@.take(i as int - 1));
            assert(bytes@.take(i as int).last() == bytes@[i as int - 1]);
        }
    }
    proof {
        assert(bytes@.take(bytes@.len() as int) =~= bytes@);
    }
    out
}

/// Whether a byte is a printable ASCII character.
pub open spec fn printable_ascii(b: u8) -> bool {
    32 <= b && b <= 126
}

/// The printable ASCII character of a byte, drawn from the table of the
/// ninety-five printable characters in code order.
pub open spec fn ascii_char(b: u8) -> char
    recommends
        printable_ascii(b),
{
    " !\"#$%&'()*+,-./0123456789:;<=>?@ABCDEFGHIJKLMNOPQRSTUVWXYZ[\\]^_`abcdefghijklmnopqrstuvwxyz{|}~"@[b
        - 32]
}

/// Whether every byte of an engine id is printable ASCII.
pub open spec fn engine_id_printable(id: Seq<u8>) -> bool {
    forall|i: int| 0 <= i < id.len() ==> printable_ascii(#[trigger] id[i])
}

/// A consensus engine id rendered for diagnostics: its characters when the
/// four bytes are printable text, else the byte-escaped `0x` form. An id
/// that is not valid text degrades to the escaped form rather than
/// failing the whole rendering.
pub open spec fn engine_id_chars(id: Seq<u8>) -> Seq<char> {
    if engine_id_printable(id) {
        Seq::new(id.len(), |i: int| ascii_char(id[i]))
    } else {
        seq!['0', 'x'] + hex_chars(id)
    }
}

/// Appends one printable ASCII character to `out`.
fn push_printable(out: &mut String, b: u8)
    requires
        32 <= b <= 126,
    ensures
        final(out)@ == old(out)@ + seq![ascii_char(b)],
{
    let table: &str =
        " !\"#$%&'()*+,-./0123456789:;<=>?@ABCDEFGHIJKLMNOPQRSTUVWXYZ[\\]^_`abcdefghijklmnopqrstuvwxyz{|}~";
    proof {
        reveal_strlit(
            " !\"#$%&'()*+,-./0123456789:;<=>?@ABCDEFGHIJKLMNOPQRSTUVWXYZ[\\]^_`abcdefghijklmnopqrstuvwxyz{|}~",
        );
    }
    let i: usize = (b - 32) as usize;
    let c: &str = table.substring_char(i, i + 1);
    assert(c@ =~= seq![ascii_char(b)]);
    out.append(c);
}

/// Renders a consensus engine id for diagnostics.
fn engine_id_to_text(id: &[u8; 4]) -> (r: String)
    ensures
        r@ == engine_id_chars(id@),
{
    let printable: bool = 32 <= id[0] && id[0] <= 126 && 32 <= id[1] && id[1] <= 126 && 32 <= id[2]
        && id[2] <= 126 && 32 <= id[3] && id[3] <= 126;
    if printable {
        let mut out: String = String::new();
        push_printable(&mut out, id[0]);
        push_printable(&mut out, id[1]);
        push_printable(&mut out, id[2]);
        push_printable(&mut out, id[3]);
        proof {
            assert(engine_id_printable(id@));
            assert(out@ =~= Seq::new(id@.len(), |i: int| ascii_char(id@[i])));
        }
        out
    } else {
        let mut out: String = String::new();
        out.append("0x");
        proof {
            reveal_strlit("0x");
            assert("0x"@ =~= seq!['0', 'x']);
        }
        let mut i: usize = 0;
        while i < 4
            invariant
                i <= 4,
                out@ == seq!['0', 'x'] + hex_chars(id@.take(i as int)),
            decreases 4 - i,
        {
            push_hex_byte(&mut out, id[i]);
            i = i + 1;
            proof {
                assert(id@.take(i as int).drop_last() =~= id@.take(i as int - 1));
                assert(id@.take(i as int).last() == id@[i as int - 1]);
                assert(out@ =~= seq!['0', 'x'] + hex_chars(id@.take(i as int)));
            }
        }
        proof {
            assert(id@.take(4) =~= id@);
            assert(!engine_id_printable(id@));
        }
        out
    }
}

/// The diagnostic rendering of one digest item: the variant's name, the
/// engine id as text where it carries one, and the payload bytes quoted
/// in `0x` hexadecimal form.
pub open spec fn spec_digest_item_human_readable(v: DigestItemView) -> Seq<char> {
    match v {
        DigestItemView::PreRuntime(id, data) => "DigestItem::PreRuntime [ "@ + engine_id_chars(id)
            + " \"0x"@ + hex_chars(data) + "\" ]"@,
        DigestItemView::Consensus(id, data) => "DigestItem::Consensus [ "@ + engine_id_chars(id)
            + " \"0x"@ + hex_chars(data) + "\" ]"@,
        DigestItemView::Seal(id, data) => "DigestItem::Seal [ "@ + engine_id_chars(id) + " \"0x"@
            + hex_chars(data) + "\" ]"@,
        DigestItemView::Other(data) => "DigestItem::Other [ \"0x"@ + hex_chars(data) + "\" ]"@,
        DigestItemView::RuntimeEnvironmentUpdated => "DigestItem::RuntimeEnvironmentUpdated"@,
    }
}

impl DigestItem {
    /// Renders this digest item for diagnostics.
    pub fn to_human_readable(&self) -> (r: String)
        ensures
            r@ == spec_digest_item_human_readable(self@),
    {
        match self {
            DigestItem::PreRuntime(id, data) => {
                let mut out: String = String::from_str("DigestItem::PreRuntime [ ");
                let name: String = engine_id_to_text(id);
                out.append(name.as_str());
                out.append(" \"0x");
                let value: String = bytes_to_hex(data.as_slice());
                out.append(value.as_str());
                out.append("\" ]");
                assert(out@ =~= spec_digest_item_human_readable(self@));
                out
            },
            DigestItem::Consensus(id, data) => {
                let mut out: String = String::from_str("DigestItem::Consensus [ ");
                let name: String = engine_id_to_text(id);
                out.append(name.as_str());
                out.append(" \"0x");
                let value: String = bytes_to_hex(data.as_slice());
                out.append(value.as_str());
                out.append("\" ]");
                assert(out@ =~= spec_digest_item_human_readable(self@));
                out
            },
            DigestItem::Seal(id, data) => {
                let mut out: String = String::from_str("DigestItem::Seal [ ");
                let name: String = engine_id_to_text(id);
                out.append(name.as_str());
                out.append(" \"0x");
                let value: String = bytes_to_hex(data.as_slice());
                out.append(value.as_str());
                out.append("\" ]");
                assert(out@ =~= spec_digest_item_human_readable(self@));
                out
            },
            DigestItem::Other(data) => {
                let mut out: String = String::from_str("DigestItem::Other [ \"0x");
                let value: String = bytes_to_hex(data.as_slice());
                out.append(value.as_str());
                out.append("\" ]");
                assert(out@ =~= spec_digest_item_human_readable(self@));
                out
            },
            DigestItem::RuntimeEnvironmentUpdated => {
                String::from_str("DigestItem::RuntimeEnvironmentUpdated")
            },
        }
    }
}

/// The diagnostic rendering of a digest: each item's rendering in chain
/// log order, each followed by a line break.
pub open spec fn spec_digest_human_readable(items: Seq<DigestItemView>) -> Seq<char>
    decreases items.len(),
{
    if items.len() == 0 {
        Seq::empty()
    } else {
        spec_digest_human_readable(items.drop_last()) + spec_digest_item_human_readable(
            items.last(),
        ) + seq!['\n']
    }
}

impl Digest {
    /// Renders every log entry of this digest, one line per item.
    pub fn to_human_readable(&self) -> (r: String)
        ensures
            r@ == spec_digest_human_readable(self@),
    {
        let mut result: String = String::new();
        let mut i: usize = 0;
        while i < self.logs.len()
            invariant
                i <= self.logs@.len(),
                result@ == spec_digest_human_readable(item_views(self.logs@).take(i as int)),
            decreases self.logs@.len() - i,
        {
            let line: String = self.logs[i].to_human_readable();
            result.append(line.as_str());
            result.append("\n");
            i = i + 1;
            proof {
                reveal_strlit("\n");
                assert("\n"@ =~= seq!['\n']);
                let views = item_views(self.logs@);
                assert(views.take(i as int).drop_last() =~= views.take(i as int - 1));
                assert(views.take(i as int).last() == self.logs@[i as int - 1]@);
                assert(result@ =~= spec_digest_human_readable(views.take(i as int)));
            }
        }
        proof {
            assert(item_views(self.logs@).take(self.logs@.len() as int) =~= item_views(self.logs@));
        }
        result
    }
}

} // verus!
