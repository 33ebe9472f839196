//! The compact variable-length integer convention and the length-prefixed
//! byte-sequence encoding used by the chain's wire format.
//!
//! A compact 32-bit value is encoded in one of four modes, selected by the
//! two low bits of the first byte:
//!
//! * `0b00`: the value, at most `0x3f`, in the six high bits of one byte;
//! * `0b01`: the value, at most `0x3fff`, shifted into a two-byte
//!   little-endian quantity;
//! * `0b10`: the value, at most `0x3fffffff`, shifted into a four-byte
//!   little-endian quantity;
//! * `0b11`: a lone `0b11` prefix byte followed by the value as four
//!   little-endian bytes.
//!
//! The decoder accepts only the canonical (shortest) encoding of each value
//! and rejects the others as [`DecodeError::MalformedCompact`].
//!
//! A byte sequence is encoded as the compact encoding of its length
//! followed by the bytes themselves; the decoder checks the announced
//! length against the bytes actually remaining before allocating, so a
//! malformed length prefix cannot request an unbounded buffer.

use vstd::prelude::*;

use crate::errors::DecodeError;

verus! {

/// The little-endian reading of four bytes.
pub open spec fn spec_u32_from_le(b0: u8, b1: u8, b2: u8, b3: u8) -> u32 {
    (b0 as u32) | ((b1 as u32) << 8) | ((b2 as u32) << 16) | ((b3 as u32) << 24)
}

/// The four little-endian bytes of a 32-bit value.
pub open spec fn spec_u32_to_le(x: u32) -> Seq<u8> {
    seq![x as u8, (x >> 8) as u8, (x >> 16) as u8, (x >> 24) as u8]
}

/// The two little-endian bytes of a 16-bit value.
pub open spec fn spec_u16_to_le(x: u16) -> Seq<u8> {
    seq![x as u8, (x >> 8) as u8]
}

/// The canonical compact encoding of a 32-bit value.
pub open spec fn spec_compact_u32_encode(v: u32) -> Seq<u8> {
    if v <= 0x3f {
        seq![(v as u8) << 2]
    } else if v <= 0x3fff {
        spec_u16_to_le(((v as u16) << 2) | 0b01)
    } else if v <= 0x3fffffff {
        spec_u32_to_le((v << 2) | 0b10)
    } else {
        seq![0b11u8] + spec_u32_to_le(v)
    }
}

/// Reads one compact 32-bit value at `pos`, yielding the value and the
/// position just past it, or the exact failure: truncation when the input
/// ends first, a malformed-compact error on a non-canonical or
/// out-of-range prefix.
pub open spec fn spec_compact_u32_decode(s: Seq<u8>, pos: int) -> Result<(u32, int), DecodeError> {
    if pos >= s.len() {
        Err(DecodeError::TruncatedInput)
    } else {
        let prefix = s[pos];
        if prefix % 4 == 0 {
            Ok((((prefix as u32) >> 2), pos + 1))
        } else if prefix % 4 == 1 {
            if s.len() < pos + 2 {
                Err(DecodeError::TruncatedInput)
            } else {
                let x = ((prefix as u16) | ((s[pos + 1] as u16) << 8)) >> 2;
                if 0x3f < x && x <= 0x3fff {
                    Ok(((x as u32), pos + 2))
                } else {
                    Err(DecodeError::MalformedCompact)
                }
            }
        } else if prefix % 4 == 2 {
            if s.len() < pos + 4 {
                Err(DecodeError::TruncatedInput)
            } else {
                let x = spec_u32_from_le(prefix, s[pos + 1], s[pos + 2], s[pos + 3]) >> 2;
                if 0x3fff < x && x <= 0x3fffffff {
                    Ok((x, pos + 4))
                } else {
                    Err(DecodeError::MalformedCompact)
                }
            }
        } else if prefix >> 2 == 0 {
            if s.len() < pos + 5 {
                Err(DecodeError::TruncatedInput)
            } else {
                let x = spec_u32_from_le(s[pos + 1], s[pos + 2], s[pos + 3], s[pos + 4]);
                if x > 0x3fffffff {
                    Ok((x, pos + 5))
                } else {
                    Err(DecodeError::MalformedCompact)
                }
            }
        } else {
            Err(DecodeError::MalformedCompact)
        }
    }
}

/// The length-prefixed encoding of a byte sequence: the compact encoding
/// of the length, then the bytes.
pub open spec fn spec_bytes_encode(data: Seq<u8>) -> Seq<u8>
    recommends
        data.len() <= u32::MAX,
{
    spec_compact_u32_encode(data.len() as u32) + data
}

/// Reads one length-prefixed byte sequence at `pos`. A length prefix that
/// announces more bytes than remain is reported as truncation.
pub open spec fn spec_bytes_decode(s: Seq<u8>, pos: int) -> Result<(Seq<u8>, int), DecodeError> {
    match spec_compact_u32_decode(s, pos) {
        Ok((n, p)) => {
            if p + n <= s.len() {
                Ok((s.subrange(p, p + n), p + n))
            } else {
                Err(DecodeError::TruncatedInput)
            }
        },
        Err(e) => Err(e),
    }
}

/// Appends the canonical compact encoding of `v` to `out`.
pub fn compact_u32_encode_to(v: u32, out: &mut Vec<u8>)
    ensures
        final(out)@ == old(out)@ + spec_compact_u32_encode(v),
{
    if v <= 0x3f {
        out.push((v as u8) << 2);
        assert(out@ =~= old(out)@ + spec_compact_u32_encode(v));
    } else if v <= 0x3fff {
        let x: u16 = ((v as u16) << 2) | 0b01;
        out.push(x as u8);
        out.push((x >> 8) as u8);
        assert(out@ =~= old(out)@ + spec_compact_u32_encode(v));
    } else if v <= 0x3fffffff {
        let x: u32 = (v << 2) | 0b10;
        out.push(x as u8);
        out.push((x >> 8) as u8);
        out.push((x >> 16) as u8);
        out.push((x >> 24) as u8);
        assert(out@ =~= old(out)@ + spec_compact_u32_encode(v));
    } else {
        out.push(0b11u8);
        out.push(v as u8);
        out.push((v >> 8) as u8);
        out.push((v >> 16) as u8);
        out.push((v >> 24) as u8);
        assert(out@ =~= old(out)@ + spec_compact_u32_encode(v));
    }
}

/// Reads one compact 32-bit value from `s` at `pos`.
pub fn compact_u32_decode(s: &[u8], pos: usize) -> (r: Result<(u32, usize), DecodeError>)
    ensures
        match r {
            Ok((v, end)) => spec_compact_u32_decode(s@, pos as int) == Ok::<(u32, int), DecodeError>(
                (v, end as int),
            ) && pos < end <= s@.len(),
            Err(e) => spec_compact_u32_decode(s@, pos as int) == Err::<(u32, int), DecodeError>(e),
        },
{
    if pos >= s.len() {
        return Err(DecodeError::TruncatedInput);
    }
    let prefix: u8 = s[pos];
    if prefix % 4 == 0 {
        Ok(((prefix as u32) >> 2, pos + 1))
    } else if prefix % 4 == 1 {
        if s.len() - pos < 2 {
            return Err(DecodeError::TruncatedInput);
        }
        let x: u16 = ((prefix as u16) | ((s[pos + 1] as u16) << 8)) >> 2;
        if 0x3f < x && x <= 0x3fff {
            Ok((x as u32, pos + 2))
        } else {
            Err(DecodeError::MalformedCompact)
        }
    } else if prefix % 4 == 2 {
        if s.len() - pos < 4 {
            return Err(DecodeError::TruncatedInput);
        }
        let x: u32 = ((prefix as u32) | ((s[pos + 1] as u32) << 8) | ((s[pos + 2] as u32) << 16)
            | ((s[pos + 3] as u32) << 24)) >> 2;
        if 0x3fff < x && x <= 0x3fffffff {
            Ok((x, pos + 4))
        } else {
            Err(DecodeError::MalformedCompact)
        }
    } else if prefix >> 2 == 0 {
        if s.len() - pos < 5 {
            return Err(DecodeError::TruncatedInput);
        }
        let x: u32 = (s[pos + 1] as u32) | ((s[pos + 2] as u32) << 8) | ((s[pos + 3] as u32) << 16)
            | ((s[pos + 4] as u32) << 24);
        if x > 0x3fffffff {
            Ok((x, pos + 5))
        } else {
            Err(DecodeError::MalformedCompact)
        }
    } else {
        Err(DecodeError::MalformedCompact)
    }
}

/// Appends the length-prefixed encoding of `data` to `out`.
pub fn bytes_encode_to(data: &[u8], out: &mut Vec<u8>)
    requires
        data@.len() <= u32::MAX,
    ensures
        final(out)@ == old(out)@ + spec_bytes_encode(data@),
{
    compact_u32_encode_to(data.len() as u32, out);
    let ghost mid = out@;
    let mut i: usize = 0;
    while i < data.len()
        invariant
            i <= data@.len(),
            out@ == mid + data@.subrange(0, i as int),
        decreases data@.len() - i,
    {
        out.push(data[i]);
        i = i + 1;
        assert(out@ =~= mid + data@.subrange(0, i as int));
    }
    assert(final(out)@ =~= old(out)@ + spec_bytes_encode(data@));
}

/// Reads one length-prefixed byte sequence from `s` at `pos`. The announced
/// length is checked against the bytes remaining before anything is
/// allocated.
pub fn bytes_decode(s: &[u8], pos: usize) -> (r: Result<(Vec<u8>, usize), DecodeError>)
    ensures
        match r {
            Ok((data, end)) => spec_bytes_decode(s@, pos as int) == Ok::<(Seq<u8>, int), DecodeError>(
                (data@, end as int),
            ) && pos < end <= s@.len(),
            Err(e) => spec_bytes_decode(s@, pos as int) == Err::<(Seq<u8>, int), DecodeError>(e),
        },
{
    let (n, p) = match compact_u32_decode(s, pos) {
        Ok(v) => v,
        Err(e) => {
            return Err(e);
        },
    };
    if (n as usize) > s.len() - p {
        return Err(DecodeError::TruncatedInput);
    }
    let end: usize = p + n as usize;
    let mut data: Vec<u8> = Vec::new();
    let mut i: usize = p;
    while i < end
        invariant
            p <= i <= end <= s@.len(),
            data@ == s@.subrange(p as int, i as int),
        decreases end - i,
    {
        data.push(s[i]);
        i = i + 1;
        assert(data@ =~= s@.subrange(p as int, i as int));
    }
    Ok((data, end))
}

/// Reads one fixed-width 32-bit little-endian value at `pos`.
pub open spec fn spec_u32_fixed_decode(s: Seq<u8>, pos: int) -> Result<(u32, int), DecodeError> {
    if pos + 4 <= s.len() {
        Ok((spec_u32_from_le(s[pos], s[pos + 1], s[pos + 2], s[pos + 3]), pos + 4))
    } else {
        Err(DecodeError::TruncatedInput)
    }
}

/// Appends the four little-endian bytes of `x` to `out`.
pub fn u32_fixed_encode_to(x: u32, out: &mut Vec<u8>)
    ensures
        final(out)@ == old(out)@ + spec_u32_to_le(x),
{
    out.push(x as u8);
    out.push((x >> 8) as u8);
    out.push((x >> 16) as u8);
    out.push((x >> 24) as u8);
    assert(out@ =~= old(out)@ + spec_u32_to_le(x));
}

/// Reads one fixed-width 32-bit little-endian value from `s` at `pos`.
pub fn u32_fixed_decode(s: &[u8], pos: usize) -> (r: Result<(u32, usize), DecodeError>)
    requires
        pos <= s@.len(),
    ensures
        match r {
            Ok((x, end)) => spec_u32_fixed_decode(s@, pos as int) == Ok::<(u32, int), DecodeError>(
                (x, end as int),
            ) && pos < end <= s@.len(),
            Err(e) => spec_u32_fixed_decode(s@, pos as int) == Err::<(u32, int), DecodeError>(e),
        },
{
    if s.len() - pos < 4 {
        return Err(DecodeError::TruncatedInput);
    }
    let x: u32 = (s[pos] as u32) | ((s[pos + 1] as u32) << 8) | ((s[pos + 2] as u32) << 16) | ((s[
        pos + 3
    ] as u32) << 24);
    Ok((x, pos + 4))
}

/// Law: the little-endian reading of the little-endian bytes of `x` is `x`
/// again.
pub proof fn lemma_u32_le_round_trip(x: u32)
    ensures
        spec_u32_from_le(x as u8, (x >> 8) as u8, (x >> 16) as u8, (x >> 24) as u8) == x,
{
    assert(((x as u8) as u32) | ((((x >> 8) as u8) as u32) << 8) | ((((x >> 16) as u8) as u32)
        << 16) | ((((x >> 24) as u8) as u32) << 24) == x) by (bit_vector);
}

/// Law: decoding a canonical compact encoding embedded at `pos` yields the
/// encoded value and stops just past it.
pub proof fn lemma_compact_u32_round_trip(s: Seq<u8>, pos: int, v: u32)
    requires
        0 <= pos,
        pos + spec_compact_u32_encode(v).len() <= s.len(),
        s.subrange(pos, pos + spec_compact_u32_encode(v).len() as int) == spec_compact_u32_encode(
            v,
        ),
    ensures
        spec_compact_u32_decode(s, pos) == Ok::<(u32, int), DecodeError>(
            (v, pos + spec_compact_u32_encode(v).len()),
        ),
{
    let enc = spec_compact_u32_encode(v);
    let sub = s.subrange(pos, pos + enc.len() as int);
    if v <= 0x3f {
        assert(s[pos] == enc[0]) by {
            assert(sub[0] == s[pos]);
        }
        assert(((v as u8) << 2) % 4 == 0 && (((v as u8) << 2) as u32) >> 2 == v)
            by (bit_vector)
            requires
                v <= 0x3f,
        ;
    } else if v <= 0x3fff {
        assert(s[pos] == enc[0] && s[pos + 1] == enc[1]) by {
            assert(sub[0] == s[pos] && sub[1] == s[pos + 1]);
        }
        let x: u16 = ((v as u16) << 2) | 0b01;
        assert((x as u8) % 4 == 1 && (((x as u8) as u16) | ((((x >> 8) as u8) as u16) << 8)) >> 2
            == v as u16 && 0x3f < v as u16 && v as u16 <= 0x3fff)
            by (bit_vector)
            requires
                0x3f < v <= 0x3fff,
                x == ((v as u16) << 2) | 0b01,
        ;
    } else if v <= 0x3fffffff {
        assert(sub[0] == s[pos] && sub[1] == s[pos + 1] && sub[2] == s[pos + 2]);
        assert(sub[3] == s[pos + 3]);
        let x: u32 = (v << 2) | 0b10;
        assert((x as u8) % 4 == 2 && (((x as u8) as u32) | ((((x >> 8) as u8) as u32) << 8) | ((((x
            >> 16) as u8) as u32) << 16) | ((((x >> 24) as u8) as u32) << 24)) >> 2 == v && 0x3fff
            < v && v <= 0x3fffffff)
            by (bit_vector)
            requires
                0x3fff < v <= 0x3fffffff,
                x == (v << 2) | 0b10,
        ;
    } else {
        assert(sub[0] == s[pos] && sub[1] == s[pos + 1] && sub[2] == s[pos + 2]);
        assert(sub[3] == s[pos + 3] && sub[4] == s[pos + 4]);
        assert(3u8 % 4 == 3 && 3u8 >> 2 == 0) by (bit_vector);
        assert(((v as u8) as u32) | ((((v >> 8) as u8) as u32) << 8) | ((((v >> 16) as u8) as u32)
            << 16) | ((((v >> 24) as u8) as u32) << 24) == v && v > 0x3fffffff)
            by (bit_vector)
            requires
                v > 0x3fffffff,
        ;
    }
}

/// The four little-endian bytes of a value assembled from four bytes are
/// those bytes again.
pub proof fn lemma_u32_le_bytes(b0: u8, b1: u8, b2: u8, b3: u8)
    ensures
        spec_u32_to_le(spec_u32_from_le(b0, b1, b2, b3)) == seq![b0, b1, b2, b3],
{
    let x = spec_u32_from_le(b0, b1, b2, b3);
    assert(x as u8 == b0 && (x >> 8) as u8 == b1 && (x >> 16) as u8 == b2 && (x >> 24) as u8 == b3)
        by (bit_vector)
        requires
            x == (b0 as u32) | ((b1 as u32) << 8) | ((b2 as u32) << 16) | ((b3 as u32) << 24),
    ;
    assert(spec_u32_to_le(x) =~= seq![b0, b1, b2, b3]);
}

/// Law: whatever the compact decoder accepts at `pos` is exactly the
/// canonical compact encoding of the value it returns; the decoder admits
/// no second spelling of any value.
pub proof fn lemma_compact_u32_decode_sound(s: Seq<u8>, pos: int, v: u32, end: int)
    requires
        0 <= pos,
        spec_compact_u32_decode(s, pos) == Ok::<(u32, int), DecodeError>((v, end)),
    ensures
        pos < end <= s.len(),
        s.subrange(pos, end) == spec_compact_u32_encode(v),
{
    let prefix = s[pos];
    if prefix % 4 == 0 {
        assert(v <= 0x3f && (v as u8) << 2 == prefix)
            by (bit_vector)
            requires
                prefix % 4 == 0,
                v == (prefix as u32) >> 2,
        ;
        assert(s.subrange(pos, end) =~= seq![(v as u8) << 2]);
    } else if prefix % 4 == 1 {
        let b1 = s[pos + 1];
        let x = ((prefix as u16) | ((b1 as u16) << 8)) >> 2;
        assert(0x3f < v && v <= 0x3fff && (((v as u16) << 2) | 0b01) as u8 == prefix && ((((v
            as u16) << 2) | 0b01) >> 8) as u8 == b1)
            by (bit_vector)
            requires
                prefix % 4 == 1,
                x == ((prefix as u16) | ((b1 as u16) << 8)) >> 2,
                0x3f < x && x <= 0x3fff,
                v == x as u32,
        ;
        assert(s.subrange(pos, end) =~= spec_u16_to_le(((v as u16) << 2) | 0b01));
    } else if prefix % 4 == 2 {
        let b1 = s[pos + 1];
        let b2 = s[pos + 2];
        let b3 = s[pos + 3];
        let x = spec_u32_from_le(prefix, b1, b2, b3) >> 2;
        assert(0x3fff < v && v <= 0x3fffffff && ((v << 2) | 0b10) as u8 == prefix && (((v << 2)
            | 0b10) >> 8) as u8 == b1 && (((v << 2) | 0b10) >> 16) as u8 == b2 && (((v << 2)
            | 0b10) >> 24) as u8 == b3)
            by (bit_vector)
            requires
                prefix % 4 == 2,
                x == ((prefix as u32) | ((b1 as u32) << 8) | ((b2 as u32) << 16) | ((b3 as u32)
                    << 24)) >> 2,
                0x3fff < x && x <= 0x3fffffff,
                v == x,
        ;
        assert(s.subrange(pos, end) =~= spec_u32_to_le((v << 2) | 0b10));
    } else {
        let b1 = s[pos + 1];
        let b2 = s[pos + 2];
        let b3 = s[pos + 3];
        let b4 = s[pos + 4];
        assert(prefix == 3) by (bit_vector)
            requires
                prefix % 4 == 3 && prefix >> 2 == 0,
        ;
        lemma_u32_le_bytes(b1, b2, b3, b4);
        assert(s.subrange(pos, end) =~= seq![0b11u8] + spec_u32_to_le(v));
    }
}

/// Law: whatever the byte-sequence decoder accepts at `pos` is exactly
/// the length-prefixed encoding of the bytes it returns.
pub proof fn lemma_bytes_decode_sound(s: Seq<u8>, pos: int, data: Seq<u8>, end: int)
    requires
        0 <= pos,
        spec_bytes_decode(s, pos) == Ok::<(Seq<u8>, int), DecodeError>((data, end)),
    ensures
        pos < end <= s.len(),
        data.len() <= u32::MAX,
        s.subrange(pos, end) == spec_bytes_encode(data),
{
    let r = spec_compact_u32_decode(s, pos);
    let (n, p) = r->Ok_0;
    lemma_compact_u32_decode_sound(s, pos, n, p);
    assert(data.len() == n);
    assert(s.subrange(pos, end) =~= s.subrange(pos, p) + s.subrange(p, end));
    assert(spec_bytes_encode(data) == spec_compact_u32_encode(n) + data);
}

/// Law: decoding a canonical compact encoding embedded at `pos` yields
/// the encoded bytes and stops just past them.
pub proof fn lemma_bytes_round_trip(s: Seq<u8>, pos: int, data: Seq<u8>)
    requires
        0 <= pos,
        data.len() <= u32::MAX,
        pos + spec_bytes_encode(data).len() <= s.len(),
        s.subrange(pos, pos + spec_bytes_encode(data).len() as int) == spec_bytes_encode(data),
    ensures
        spec_bytes_decode(s, pos) == Ok::<(Seq<u8>, int), DecodeError>(
            (data, pos + spec_bytes_encode(data).len()),
        ),
{
    let n = data.len() as u32;
    let cl = spec_compact_u32_encode(n).len() as int;
    let total = spec_bytes_encode(data).len() as int;
    assert(s.subrange(pos, pos + cl) =~= spec_compact_u32_encode(n)) by {
        assert forall|i: int| 0 <= i < cl implies s.subrange(pos, pos + cl)[i]
            == spec_compact_u32_encode(n)[i] by {
            assert(s.subrange(pos, pos + total)[i] == spec_bytes_encode(data)[i]);
        }
    }
    lemma_compact_u32_round_trip(s, pos, n);
    assert(s.subrange(pos + cl, pos + cl + n as int) =~= data) by {
        assert forall|i: int| 0 <= i < n as int implies s.subrange(pos + cl, pos + cl + n as int)[i]
            == data[i] by {
            assert(s.subrange(pos, pos + total)[cl + i] == spec_bytes_encode(data)[cl + i]);
        }
    }
}

} // verus!
