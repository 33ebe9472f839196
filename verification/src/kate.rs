//! The data-availability proof model: Merkle root triple, proof path,
//! leaf position, and the fixed-size commitment proof primitive.

use vstd::array::ArrayAdditionalExecFns;
use vstd::prelude::*;

use crate::block::h256_from_hex;
use crate::block::spec_h256_from_hex;
use crate::errors::DecodeError;
use crate::H256;

verus! {

/// A value for each dispatch class of extrinsics.
#[derive(Debug, Clone, Copy, PartialEq, Eq)]
pub struct PreDispatchClass<T> {
    /// Value for normal extrinsics.
    pub normal: T,
    /// Value for operational extrinsics.
    pub operational: T,
    /// Value for mandatory extrinsics.
    pub mandatory: T,
}

/// The block length limits and data-matrix dimensions the node reports.
#[derive(Debug, Clone, Copy, PartialEq, Eq)]
pub struct BlockLength {
    pub max: PreDispatchClass<u32>,
    pub cols: u32,
    pub rows: u32,
    pub chunk_size: u32,
}

/// The three Merkle roots a block commits to.
#[derive(Debug, Clone, Copy, PartialEq, Eq)]
pub struct TxDataRoots {
    /// Global Merkle root.
    pub data_root: H256,
    /// Merkle root of the submitted data.
    pub blob_root: H256,
    /// Merkle root of the bridged data.
    pub bridge_root: H256,
}

/// A Merkle inclusion proof for one data leaf. The proof path holds the
/// inner node hashes needed to reconstruct the root from the leaf — it
/// contains neither the leaf nor the root — and the leaf count lets the
/// reconstruction handle an odd layer whose last node is promoted upward;
/// the reconstruction itself happens at the verifier, not here.
#[derive(Debug, Clone, PartialEq, Eq)]
pub struct DataProof {
    pub roots: TxDataRoots,
    /// Inner node hashes, leaf side first.
    pub proof: Vec<H256>,
    /// Number of leaves in the original tree.
    pub number_of_leaves: u32,
    /// Zero-based index of the leaf the proof is for.
    pub leaf_index: u32,
    /// The leaf's content.
    pub leaf: H256,
}

/// A bridged message carried beside a proof: either opaque bytes or a
/// fungible-token transfer.
#[derive(Debug, Clone, PartialEq, Eq)]
pub enum Message {
    ArbitraryMessage(Vec<u8>),
    FungibleToken { asset_id: H256, amount: u128 },
}

/// A message with its addressing: sender, receiver, the two domains, and
/// a unique id.
#[derive(Debug, Clone, PartialEq, Eq)]
pub struct AddressedMessage {
    pub message: Message,
    pub from: H256,
    pub to: H256,
    pub origin_domain: u32,
    pub destination_domain: u32,
    /// Unique identifier for the message.
    pub id: u64,
}

/// A proof query response: the data proof and the bridged message, if the
/// leaf carries one.
#[derive(Debug, Clone, PartialEq, Eq)]
pub struct ProofResponse {
    pub data_proof: DataProof,
    pub messages: Option<AddressedMessage>,
}

/// A raw scalar of the data matrix.
#[derive(Debug, Clone, Copy, PartialEq, Eq)]
pub struct U256(pub [u64; 4]);

/// A raw scalar of the data matrix, as the proof queries name it.
pub type GRawScalar = U256;

/// One row of the data matrix.
pub type GRow = Vec<GRawScalar>;

/// A cell's scalar together with the proof that commits to it.
pub type GDataProof = (GRawScalar, GProof);

/// The commitment proof primitive: exactly forty-eight bytes, correct by
/// construction.
#[derive(Debug, Clone, Copy, PartialEq, Eq)]
pub struct GProof(pub [u8; 48]);

impl GProof {
    /// Builds the fixed-size proof from a variable-length byte sequence,
    /// rejecting every length other than forty-eight and reporting the
    /// offending length itself.
    pub fn try_from(data: Vec<u8>) -> (r: Result<GProof, u32>)
        requires
            data@.len() <= u32::MAX,
        ensures
            match r {
                Ok(p) => data@.len() == 48 && p.0@ == data@,
                Err(actual) => data@.len() != 48 && actual == data@.len() as u32,
            },
    {
        if data.len() != 48 {
            return Err(data.len() as u32);
        }
        let mut proof: [u8; 48] = [0u8; 48];
        let mut i: usize = 0;
        while i < 48
            invariant
                i <= 48,
                data@.len() == 48,
                proof@.len() == 48,
                forall|j: int| 0 <= j < i ==> proof@[j] == data@[j],
            decreases 48 - i,
        {
            proof.set(i, data[i]);
            i = i + 1;
        }
        assert(proof@ =~= data@);
        Ok(GProof(proof))
    }

    /// The proof's bytes as a variable-length sequence.
    pub fn to_vec(&self) -> (r: Vec<u8>)
        ensures
            r@ == self.0@,
    {
        let mut out: Vec<u8> = Vec::new();
        let mut i: usize = 0;
        while i < 48
            invariant
                i <= 48,
                out@ == self.0@.take(i as int),
            decreases 48 - i,
        {
            out.push(self.0[i]);
            i = i + 1;
            assert(out@ =~= self.0@.take(i as int));
        }
        assert(self.0@.take(48) =~= self.0@);
        out
    }
}

/// One matrix cell, identified by its row and column, for a proof or row
/// query.
#[derive(Debug, Clone, Copy, PartialEq, Eq, Structural)]
pub struct Cell {
    pub row: u32,
    pub col: u32,
}

/// Parses an ordered run of hex strings as 32-byte digests; the first
/// failure aborts the run.
pub open spec fn spec_h256s_from_hex(items: Seq<Seq<char>>) -> Result<Seq<Seq<u8>>, DecodeError>
    decreases items.len(),
{
    if items.len() == 0 {
        Ok(Seq::empty())
    } else {
        match spec_h256s_from_hex(items.drop_last()) {
            Ok(hashes) => match spec_h256_from_hex(items.last()) {
                Ok(h) => Ok(hashes.push(h)),
                Err(e) => Err(e),
            },
            Err(e) => Err(e),
        }
    }
}

/// An erring entry makes the whole run err with that entry's failure,
/// whatever follows it.
proof fn lemma_h256s_from_hex_err(items: Seq<Seq<char>>, j: int, e: DecodeError)
    requires
        0 <= j < items.len(),
        spec_h256s_from_hex(items.take(j)) is Ok,
        spec_h256_from_hex(items[j]) == Err::<Seq<u8>, DecodeError>(e),
    ensures
        spec_h256s_from_hex(items) == Err::<Seq<Seq<u8>>, DecodeError>(e),
    decreases items.len(),
{
    if items.len() == j + 1 {
        assert(items.drop_last() =~= items.take(j));
    } else {
        assert(items.drop_last().take(j) =~= items.take(j));
        lemma_h256s_from_hex_err(items.drop_last(), j, e);
    }
}

/// The views of a sequence of owned strings.
pub open spec fn string_views(items: Seq<String>) -> Seq<Seq<char>> {
    items.map_values(|s: String| s@)
}

/// The byte views of a sequence of 32-byte digests.
pub open spec fn h256_views(items: Seq<H256>) -> Seq<Seq<u8>> {
    items.map_values(|h: H256| h.0@)
}

/// Hex-decodes an ordered run of 32-byte digests, aborting on the first
/// failure.
pub fn h256s_from_hex(items: &Vec<String>) -> (r: Result<Vec<H256>, DecodeError>)
    ensures
        match r {
            Ok(hashes) => spec_h256s_from_hex(string_views(items@)) == Ok::<
                Seq<Seq<u8>>,
                DecodeError,
            >(h256_views(hashes@)),
            Err(e) => spec_h256s_from_hex(string_views(items@)) == Err::<
                Seq<Seq<u8>>,
                DecodeError,
            >(e),
        },
{
    let ghost all = string_views(items@);
    let mut hashes: Vec<H256> = Vec::new();
    proof {
        assert(all.take(0) =~= Seq::<Seq<char>>::empty());
        assert(h256_views(hashes@) =~= Seq::<Seq<u8>>::empty());
    }
    let mut i: usize = 0;
    while i < items.len()
        invariant
            i <= items@.len(),
            all == string_views(items@),
            spec_h256s_from_hex(all.take(i as int)) == Ok::<Seq<Seq<u8>>, DecodeError>(
                h256_views(hashes@),
            ),
        decreases items@.len() - i,
    {
        let entry: &String = &items[i];
        let ghost prev = hashes@;
        match h256_from_hex(entry.as_str()) {
            Ok(h) => {
                hashes.push(h);
                proof {
                    assert(all[i as int] == items@[i as int]@);
                    assert(all.take(i as int + 1).drop_last() =~= all.take(i as int));
                    assert(all.take(i as int + 1).last() == all[i as int]);
                    assert(h256_views(hashes@) =~= h256_views(prev).push(h.0@));
                    assert(spec_h256s_from_hex(all.take(i as int + 1)) == Ok::<
                        Seq<Seq<u8>>,
                        DecodeError,
                    >(h256_views(hashes@)));
                }
            },
            Err(e) => {
                proof {
                    assert(all[i as int] == items@[i as int]@);
                    lemma_h256s_from_hex_err(all, i as int, e);
                }
                return Err(e);
            },
        }
        i = i + 1;
    }
    proof {
        assert(all.take(items@.len() as int) =~= all);
    }
    Ok(hashes)
}

/// Builds a data proof from the raw field shapes the node sends: hex
/// strings for the three roots, the proof path and the leaf. The first
/// failing field aborts the parse, roots first, then the path, then the
/// leaf.
pub fn parse_data_proof(
    data_root: &str,
    blob_root: &str,
    bridge_root: &str,
    proof: &Vec<String>,
    number_of_leaves: u32,
    leaf_index: u32,
    leaf: &str,
) -> (r: Result<DataProof, DecodeError>)
    ensures
        match r {
            Ok(p) => {
                &&& spec_h256_from_hex(data_root@) == Ok::<Seq<u8>, DecodeError>(p.roots.data_root.0@)
                &&& spec_h256_from_hex(blob_root@) == Ok::<Seq<u8>, DecodeError>(p.roots.blob_root.0@)
                &&& spec_h256_from_hex(bridge_root@) == Ok::<Seq<u8>, DecodeError>(
                    p.roots.bridge_root.0@,
                )
                &&& spec_h256s_from_hex(string_views(proof@)) == Ok::<Seq<Seq<u8>>, DecodeError>(
                    h256_views(p.proof@),
                )
                &&& spec_h256_from_hex(leaf@) == Ok::<Seq<u8>, DecodeError>(p.leaf.0@)
                &&& p.number_of_leaves == number_of_leaves
                &&& p.leaf_index == leaf_index
            },
            Err(e) => {
                ||| spec_h256_from_hex(data_root@) == Err::<Seq<u8>, DecodeError>(e)
                ||| (spec_h256_from_hex(data_root@) is Ok && spec_h256_from_hex(blob_root@) == Err::<
                    Seq<u8>,
                    DecodeError,
                >(e))
                ||| (spec_h256_from_hex(data_root@) is Ok && spec_h256_from_hex(blob_root@) is Ok
                    && spec_h256_from_hex(bridge_root@) == Err::<Seq<u8>, DecodeError>(e))
                ||| (spec_h256_from_hex(data_root@) is Ok && spec_h256_from_hex(blob_root@) is Ok
                    && spec_h256_from_hex(bridge_root@) is Ok && spec_h256s_from_hex(
                    string_views(proof@),
                ) == Err::<Seq<Seq<u8>>, DecodeError>(e))
                ||| (spec_h256_from_hex(data_root@) is Ok && spec_h256_from_hex(blob_root@) is Ok
                    && spec_h256_from_hex(bridge_root@) is Ok && spec_h256s_from_hex(
                    string_views(proof@),
                ) is Ok && spec_h256_from_hex(leaf@) == Err::<Seq<u8>, DecodeError>(e))
            },
        },
{
    let data_root: H256 = match h256_from_hex(data_root) {
        Ok(h) => h,
        Err(e) => {
            return Err(e);
        },
    };
    let blob_root: H256 = match h256_from_hex(blob_root) {
        Ok(h) => h,
        Err(e) => {
            return Err(e);
        },
    };
    let bridge_root: H256 = match h256_from_hex(bridge_root) {
        Ok(h) => h,
        Err(e) => {
            return Err(e);
        },
    };
    let proof: Vec<H256> = match h256s_from_hex(proof) {
        Ok(p) => p,
        Err(e) => {
            return Err(e);
        },
    };
    let leaf: H256 = match h256_from_hex(leaf) {
        Ok(h) => h,
        Err(e) => {
            return Err(e);
        },
    };
    Ok(
        DataProof {
            roots: TxDataRoots { data_root, blob_root, bridge_root },
            proof,
            number_of_leaves,
            leaf_index,
            leaf,
        },
    )
}

} // verus!
