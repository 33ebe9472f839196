//! Event-applicability markers and storage-change notifications.

use vstd::prelude::*;

use crate::errors::DecodeError;
use crate::scale::{
    lemma_u32_le_bytes, lemma_u32_le_round_trip, spec_u32_fixed_decode, spec_u32_to_le,
    u32_fixed_decode, u32_fixed_encode_to,
};

verus! {

/// Wire tag for `Phase::ApplyExtrinsic`.
pub const PHASE_TAG_APPLY_EXTRINSIC: u8 = 0;

/// Wire tag for `Phase::Finalization`.
pub const PHASE_TAG_FINALIZATION: u8 = 1;

/// Wire tag for `Phase::Initialization`.
pub const PHASE_TAG_INITIALIZATION: u8 = 2;

/// The part of block execution an event belongs to.
#[derive(Debug, Clone, Copy, PartialEq, Eq, Structural)]
pub enum Phase {
    /// Applying the extrinsic with the carried index.
    ApplyExtrinsic(u32),
    /// Finalizing the block.
    Finalization,
    /// Initializing the block.
    Initialization,
}

/// The one-byte wire discriminant of each variant. Encoder and decoder
/// both go through this single table.
pub open spec fn phase_tag(p: Phase) -> u8 {
    match p {
        Phase::ApplyExtrinsic(_) => PHASE_TAG_APPLY_EXTRINSIC,
        Phase::Finalization => PHASE_TAG_FINALIZATION,
        Phase::Initialization => PHASE_TAG_INITIALIZATION,
    }
}

/// The binary encoding of a phase: its tag, then for `ApplyExtrinsic` the
/// extrinsic index as four little-endian bytes.
pub open spec fn spec_phase_encode(p: Phase) -> Seq<u8> {
    match p {
        Phase::ApplyExtrinsic(index) => seq![phase_tag(p)] + spec_u32_to_le(index),
        Phase::Finalization => seq![phase_tag(p)],
        Phase::Initialization => seq![phase_tag(p)],
    }
}

/// Reads one phase at `pos`: one tag byte, then the fields that the tag's
/// variant requires. A tag outside the declared set yields
/// `UnknownDiscriminant` carrying that tag.
pub open spec fn spec_phase_decode(s: Seq<u8>, pos: int) -> Result<(Phase, int), DecodeError> {
    if pos >= s.len() {
        Err(DecodeError::TruncatedInput)
    } else {
        let tag = s[pos];
        if tag == PHASE_TAG_APPLY_EXTRINSIC {
            match spec_u32_fixed_decode(s, pos + 1) {
                Ok((index, end)) => Ok((Phase::ApplyExtrinsic(index), end)),
                Err(e) => Err(e),
            }
        } else if tag == PHASE_TAG_FINALIZATION {
            Ok((Phase::Finalization, pos + 1))
        } else if tag == PHASE_TAG_INITIALIZATION {
            Ok((Phase::Initialization, pos + 1))
        } else {
            Err(DecodeError::UnknownDiscriminant(tag))
        }
    }
}

impl Phase {
    /// Decodes one phase from `s` starting at `pos`, returning the phase
    /// and the position just past the bytes it consumed.
    pub fn decode(s: &[u8], pos: usize) -> (r: Result<(Phase, usize), DecodeError>)
        ensures
            match r {
                Ok((p, end)) => spec_phase_decode(s@, pos as int) == Ok::<
                    (Phase, int),
                    DecodeError,
                >((p, end as int)) && pos < end <= s@.len(),
                Err(e) => spec_phase_decode(s@, pos as int) == Err::<(Phase, int), DecodeError>(e),
            },
    {
        if pos >= s.len() {
            return Err(DecodeError::TruncatedInput);
        }
        let tag: u8 = s[pos];
        if tag == PHASE_TAG_APPLY_EXTRINSIC {
            match u32_fixed_decode(s, pos + 1) {
                Ok((index, end)) => Ok((Phase::ApplyExtrinsic(index), end)),
                Err(e) => Err(e),
            }
        } else if tag == PHASE_TAG_FINALIZATION {
            Ok((Phase::Finalization, pos + 1))
        } else if tag == PHASE_TAG_INITIALIZATION {
            Ok((Phase::Initialization, pos + 1))
        } else {
            Err(DecodeError::UnknownDiscriminant(tag))
        }
    }

    /// Encodes this phase: the tag from the discriminant table, then the
    /// variant's payload, mirroring `decode` exactly.
    pub fn encode(&self) -> (r: Vec<u8>)
        ensures
            r@ == spec_phase_encode(*self),
    {
        let mut out: Vec<u8> = Vec::new();
        match self {
            Phase::ApplyExtrinsic(index) => {
                out.push(PHASE_TAG_APPLY_EXTRINSIC);
                u32_fixed_encode_to(*index, &mut out);
                assert(out@ =~= spec_phase_encode(*self));
            },
            Phase::Finalization => {
                out.push(PHASE_TAG_FINALIZATION);
                assert(out@ =~= spec_phase_encode(*self));
            },
            Phase::Initialization => {
                out.push(PHASE_TAG_INITIALIZATION);
                assert(out@ =~= spec_phase_encode(*self));
            },
        }
        out
    }
}

impl Default for Phase {
    /// The phase assumed when no tag is present.
    fn default() -> (r: Phase)
        ensures
            r == Phase::Initialization,
    {
        Phase::Initialization
    }
}

/// Law: for every phase, decoding its encoding yields the phase back and
/// consumes exactly the encoding.
pub proof fn lemma_phase_round_trip(p: Phase)
    ensures
        spec_phase_decode(spec_phase_encode(p), 0) == Ok::<(Phase, int), DecodeError>(
            (p, spec_phase_encode(p).len() as int),
        ),
{
    match p {
        Phase::ApplyExtrinsic(index) => {
            let s = spec_phase_encode(p);
            lemma_u32_le_round_trip(index);
            assert(s[1] == index as u8 && s[2] == (index >> 8) as u8 && s[3] == (index >> 16) as u8
                && s[4] == (index >> 24) as u8);
        },
        Phase::Finalization => {},
        Phase::Initialization => {},
    }
}

/// Law: whatever the phase decoder accepts is exactly the encoding of the
/// phase it returns; with the round-trip law this pins the decoder to the
/// encoder's output and nothing else.
pub proof fn lemma_phase_decode_sound(s: Seq<u8>, pos: int, p: Phase, end: int)
    requires
        0 <= pos,
        spec_phase_decode(s, pos) == Ok::<(Phase, int), DecodeError>((p, end)),
    ensures
        s.subrange(pos, end) == spec_phase_encode(p),
{
    let tag = s[pos];
    if tag == PHASE_TAG_APPLY_EXTRINSIC {
        lemma_u32_le_bytes(s[pos + 1], s[pos + 2], s[pos + 3], s[pos + 4]);
        assert(s.subrange(pos, end) =~= seq![tag] + seq![
            s[pos + 1],
            s[pos + 2],
            s[pos + 3],
            s[pos + 4],
        ]);
    } else {
        assert(s.subrange(pos, end) =~= seq![tag]);
    }
}

/// Law: a first byte outside the declared tag set decodes to
/// `UnknownDiscriminant` carrying that byte, never to a default variant.
pub proof fn lemma_phase_unknown_discriminant(s: Seq<u8>, pos: int)
    requires
        0 <= pos < s.len(),
        s[pos] != PHASE_TAG_APPLY_EXTRINSIC,
        s[pos] != PHASE_TAG_FINALIZATION,
        s[pos] != PHASE_TAG_INITIALIZATION,
    ensures
        spec_phase_decode(s, pos) == Err::<(Phase, int), DecodeError>(
            DecodeError::UnknownDiscriminant(s[pos]),
        ),
{
}

/// A reported storage change set: a block hash and the changed keys with
/// their optional new data, both as the node sends them.
#[derive(Debug, Clone)]
pub struct StorageChangeSet {
    /// Block hash, as the node's hex rendering.
    pub block: String,
    /// Changed storage keys and optional storage data.
    pub changes: Vec<Vec<String>>,
}

} // verus!
