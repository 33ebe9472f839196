//! Hex-string decoding for JSON fields: fixed-width unsigned scalars and
//! raw byte strings, with an optional `0x` prefix (the prefix's case is
//! fixed; the digits may be upper or lower case).

use vstd::prelude::*;
use vstd::string::StrSliceExecFns;

use crate::errors::DecodeError;

verus! {

/// Whether `c` is a hexadecimal digit, upper or lower case.
pub open spec fn is_hex_digit(c: char) -> bool {
    let v = c as u32;
    (('0' as u32) <= v && v <= ('9' as u32)) || (('a' as u32) <= v && v <= ('f' as u32)) || (('A'
        as u32) <= v && v <= ('F' as u32))
}

/// The numeric value of a hexadecimal digit.
pub open spec fn hex_digit_value(c: char) -> u8
    recommends
        is_hex_digit(c),
{
    let v = c as u32;
    if ('0' as u32) <= v && v <= ('9' as u32) {
        (v - ('0' as u32)) as u8
    } else if ('a' as u32) <= v && v <= ('f' as u32) {
        (v - ('a' as u32) + 10) as u8
    } else if ('A' as u32) <= v && v <= ('F' as u32) {
        (v - ('A' as u32) + 10) as u8
    } else {
        0
    }
}

/// Whether every character of `digits` is a hexadecimal digit.
pub open spec fn all_hex_digits(digits: Seq<char>) -> bool {
    forall|i: int| 0 <= i < digits.len() ==> is_hex_digit(#[trigger] digits[i])
}

/// `s` with one leading `0x` removed, if it has one.
pub open spec fn strip_hex_prefix(s: Seq<char>) -> Seq<char> {
    if s.len() >= 2 && s[0] == '0' && s[1] == 'x' {
        s.skip(2)
    } else {
        s
    }
}

/// The magnitude of `digits` read as a base-16 numeral, most significant
/// digit first.
pub open spec fn hex_value(digits: Seq<char>) -> nat
    recommends
        all_hex_digits(digits),
    decreases digits.len(),
{
    if digits.len() == 0 {
        0
    } else {
        hex_value(digits.drop_last()) * 16 + hex_digit_value(digits.last()) as nat
    }
}

/// Parses a hex string as an unsigned 32-bit scalar: strip an optional
/// leading `0x`, then read the remainder as a base-16 numeral. Fails with
/// `MalformedHex` when no digits remain, when any character is outside
/// `[0-9a-fA-F]`, or when the magnitude exceeds the 32-bit width.
pub open spec fn spec_parse_hex_u32(s: Seq<char>) -> Result<u32, DecodeError> {
    let digits = strip_hex_prefix(s);
    if digits.len() == 0 || !all_hex_digits(digits) {
        Err(DecodeError::MalformedHex)
    } else if hex_value(digits) > u32::MAX {
        Err(DecodeError::MalformedHex)
    } else {
        Ok(hex_value(digits) as u32)
    }
}

/// The bytes spelled by an even run of hexadecimal digits, two digits per
/// byte, high digit first.
pub open spec fn spec_hex_bytes(digits: Seq<char>) -> Seq<u8>
    recommends
        all_hex_digits(digits),
        digits.len() % 2 == 0,
{
    Seq::new(
        (digits.len() / 2) as nat,
        |i: int|
            (hex_digit_value(digits[2 * i]) as int * 16 + hex_digit_value(
                digits[2 * i + 1],
            ) as int) as u8,
    )
}

/// Parses a hex string as raw bytes: strip an optional leading `0x`, then
/// read the remainder two digits per byte. Fails with `MalformedHex` on an
/// odd number of digits or any character outside `[0-9a-fA-F]`.
pub open spec fn spec_parse_hex_bytes(s: Seq<char>) -> Result<Seq<u8>, DecodeError> {
    let digits = strip_hex_prefix(s);
    if digits.len() % 2 != 0 || !all_hex_digits(digits) {
        Err(DecodeError::MalformedHex)
    } else {
        Ok(spec_hex_bytes(digits))
    }
}

/// The numeric value of one hexadecimal digit, or `None` for any other
/// character.
fn hex_digit_val(c: char) -> (r: Option<u8>)
    ensures
        match r {
            Some(v) => is_hex_digit(c) && v == hex_digit_value(c) && v <= 15,
            None => !is_hex_digit(c),
        },
{
    let v: u32 = c as u32;
    if 48 <= v && v <= 57 {
        Some((v - 48) as u8)
    } else if 97 <= v && v <= 102 {
        Some((v - 87) as u8)
    } else if 65 <= v && v <= 70 {
        Some((v - 55) as u8)
    } else {
        None
    }
}

/// The index of the first digit of `s`: two when `s` carries the optional
/// `0x` prefix, zero otherwise.
fn hex_digits_start(s: &str, n: usize) -> (start: usize)
    requires
        n == s@.len(),
    ensures
        start <= n,
        strip_hex_prefix(s@) =~= s@.subrange(start as int, n as int),
{
    if n >= 2 && s.get_char(0) == '0' && s.get_char(1) == 'x' {
        2
    } else {
        0
    }
}

/// Parses a hex string as an unsigned 32-bit scalar.
pub fn parse_hex_u32(s: &str) -> (r: Result<u32, DecodeError>)
    ensures
        r == spec_parse_hex_u32(s@),
{
    let n: usize = s.unicode_len();
    let start: usize = hex_digits_start(s, n);
    let ghost digits = strip_hex_prefix(s@);
    if n == start {
        return Err(DecodeError::MalformedHex);
    }
    let mut acc: u32 = 0;
    let mut i: usize = start;
    while i < n
        invariant
            start <= i <= n,
            n == s@.len(),
            digits == strip_hex_prefix(s@),
            digits =~= s@.subrange(start as int, n as int),
            all_hex_digits(s@.subrange(start as int, i as int)),
            acc == hex_value(s@.subrange(start as int, i as int)),
        decreases n - i,
    {
        let c: char = s.get_char(i);
        let ghost sofar = s@.subrange(start as int, i as int);
        let ghost next = s@.subrange(start as int, i + 1 as int);
        assert(next.drop_last() =~= sofar && next.last() == s@[i as int]);
        match hex_digit_val(c) {
            None => {
                assert(digits[i - start] == s@[i as int]);
                assert(!is_hex_digit(digits[i - start]));
                return Err(DecodeError::MalformedHex);
            },
            Some(d) => {
                if acc > 0x0fff_ffff {
                    proof {
                        assert(digits.take((i - start) as int) =~= s@.subrange(
                            start as int,
                            i as int,
                        ));
                        lemma_hex_value_grows(digits, (i - start) as int);
                        assert(hex_value(digits) >= 16 * (0x0fff_ffff + 1));
                    }
                    return Err(DecodeError::MalformedHex);
                }
                acc = acc * 16 + d as u32;
            },
        }
        i = i + 1;
    }
    assert(s@.subrange(start as int, n as int) =~= digits);
    Ok(acc)
}

/// Parses a hex string as raw bytes.
pub fn parse_hex_bytes(s: &str) -> (r: Result<Vec<u8>, DecodeError>)
    ensures
        match r {
            Ok(bytes) => spec_parse_hex_bytes(s@) == Ok::<Seq<u8>, DecodeError>(bytes@),
            Err(e) => spec_parse_hex_bytes(s@) == Err::<Seq<u8>, DecodeError>(e),
        },
{
    let n: usize = s.unicode_len();
    let start: usize = hex_digits_start(s, n);
    let ghost digits = strip_hex_prefix(s@);
    if (n - start) % 2 != 0 {
        return Err(DecodeError::MalformedHex);
    }
    let mut out: Vec<u8> = Vec::new();
    let mut i: usize = start;
    while i < n
        invariant
            start <= i <= n,
            n == s@.len(),
            (i - start) % 2 == 0,
            (n - start) % 2 == 0,
            digits == strip_hex_prefix(s@),
            digits =~= s@.subrange(start as int, n as int),
            all_hex_digits(s@.subrange(start as int, i as int)),
            out@ =~= spec_hex_bytes(s@.subrange(start as int, i as int)),
        decreases n - i,
    {
        let hi: Option<u8> = hex_digit_val(s.get_char(i));
        let h: u8 = match hi {
            None => {
                assert(digits[i - start] == s@[i as int]);
                assert(!is_hex_digit(digits[i - start]));
                return Err(DecodeError::MalformedHex);
            },
            Some(v) => v,
        };
        let lo: Option<u8> = hex_digit_val(s.get_char(i + 1));
        let l: u8 = match lo {
            None => {
                assert(digits[i + 1 - start] == s@[i + 1 as int]);
                assert(!is_hex_digit(digits[i + 1 - start]));
                return Err(DecodeError::MalformedHex);
            },
            Some(v) => v,
        };
        out.push(h * 16 + l);
        i = i + 2;
        assert(out@ =~= spec_hex_bytes(s@.subrange(start as int, i as int)));
    }
    assert(s@.subrange(start as int, n as int) =~= digits);
    Ok(out)
}

/// `c` with an upper-case hexadecimal digit folded to lower case; every
/// other character is left alone.
pub open spec fn lower_hex_char(c: char) -> char {
    if c == 'A' {
        'a'
    } else if c == 'B' {
        'b'
    } else if c == 'C' {
        'c'
    } else if c == 'D' {
        'd'
    } else if c == 'E' {
        'e'
    } else if c == 'F' {
        'f'
    } else {
        c
    }
}

/// `s` with every upper-case hexadecimal digit folded to lower case.
pub open spec fn lower_hex(s: Seq<char>) -> Seq<char> {
    s.map_values(|c: char| lower_hex_char(c))
}

/// Folding one digit's case changes neither whether it is a hexadecimal
/// digit nor its value.
proof fn lemma_hex_digit_case_fold(c: char)
    ensures
        is_hex_digit(lower_hex_char(c)) == is_hex_digit(c),
        hex_digit_value(lower_hex_char(c)) == hex_digit_value(c),
{
}

/// Folding a numeral's case does not change its magnitude.
proof fn lemma_hex_value_case_fold(digits: Seq<char>)
    ensures
        hex_value(lower_hex(digits)) == hex_value(digits),
    decreases digits.len(),
{
    if digits.len() > 0 {
        assert(lower_hex(digits).drop_last() =~= lower_hex(digits.drop_last()));
        lemma_hex_value_case_fold(digits.drop_last());
        lemma_hex_digit_case_fold(digits.last());
    }
}

/// Folding case keeps a digit run a digit run, and vice versa.
proof fn lemma_all_hex_digits_case_fold(digits: Seq<char>)
    ensures
        all_hex_digits(lower_hex(digits)) == all_hex_digits(digits),
{
    assert forall|i: int| 0 <= i < digits.len() implies is_hex_digit(#[trigger] lower_hex(digits)[i])
        == is_hex_digit(digits[i]) by {
        lemma_hex_digit_case_fold(digits[i]);
    }
    if all_hex_digits(digits) {
        assert forall|i: int| 0 <= i < lower_hex(digits).len() implies is_hex_digit(
            #[trigger] lower_hex(digits)[i],
        ) by {
            assert(is_hex_digit(digits[i]));
        }
    }
    if all_hex_digits(lower_hex(digits)) {
        assert forall|i: int| 0 <= i < digits.len() implies is_hex_digit(
            #[trigger] digits[i],
        ) by {
            assert(is_hex_digit(lower_hex(digits)[i]));
        }
    }
}

/// Case folding leaves the optional `0x` prefix alone and commutes with
/// stripping it.
proof fn lemma_strip_prefix_case_fold(s: Seq<char>)
    ensures
        strip_hex_prefix(lower_hex(s)) =~= lower_hex(strip_hex_prefix(s)),
{
}

/// Law: hex scalar decoding is case-insensitive on digits; a string and
/// its lower-cased form decode to the same integer or fail alike.
pub proof fn lemma_parse_hex_u32_case_insensitive(s: Seq<char>)
    ensures
        spec_parse_hex_u32(lower_hex(s)) == spec_parse_hex_u32(s),
{
    lemma_strip_prefix_case_fold(s);
    lemma_all_hex_digits_case_fold(strip_hex_prefix(s));
    lemma_hex_value_case_fold(strip_hex_prefix(s));
}

/// Law: hex byte decoding is case-insensitive on digits in the same way.
pub proof fn lemma_parse_hex_bytes_case_insensitive(s: Seq<char>)
    ensures
        spec_parse_hex_bytes(lower_hex(s)) == spec_parse_hex_bytes(s),
{
    lemma_strip_prefix_case_fold(s);
    let digits = strip_hex_prefix(s);
    lemma_all_hex_digits_case_fold(digits);
    if digits.len() % 2 == 0 && all_hex_digits(digits) {
        assert forall|i: int| 0 <= i < digits.len() implies hex_digit_value(
            #[trigger] lower_hex(digits)[i],
        ) == hex_digit_value(digits[i]) by {
            lemma_hex_digit_case_fold(digits[i]);
        }
        assert(spec_hex_bytes(lower_hex(digits)) =~= spec_hex_bytes(digits));
    }
}

/// Law: a string without the `0x` prefix and the same string with it
/// prepended decode to the same integer or fail alike.
pub proof fn lemma_parse_hex_u32_prefix(s: Seq<char>)
    requires
        strip_hex_prefix(s) == s,
    ensures
        spec_parse_hex_u32(seq!['0', 'x'] + s) == spec_parse_hex_u32(s),
{
    assert(strip_hex_prefix(seq!['0', 'x'] + s) =~= s);
}

/// Law: the same, for hex byte decoding.
pub proof fn lemma_parse_hex_bytes_prefix(s: Seq<char>)
    requires
        strip_hex_prefix(s) == s,
    ensures
        spec_parse_hex_bytes(seq!['0', 'x'] + s) == spec_parse_hex_bytes(s),
{
    assert(strip_hex_prefix(seq!['0', 'x'] + s) =~= s);
}

/// A numeral strictly extends each of its proper prefixes: past a prefix
/// of value `v`, the whole numeral is worth at least `16 * v`.
proof fn lemma_hex_value_grows(digits: Seq<char>, k: int)
    requires
        0 <= k < digits.len(),
    ensures
        hex_value(digits) >= 16 * hex_value(digits.take(k)),
    decreases digits.len(),
{
    if k == digits.len() - 1 {
        assert(digits.take(k) =~= digits.drop_last());
    } else {
        lemma_hex_value_grows(digits.drop_last(), k);
        assert(digits.drop_last().take(k) =~= digits.take(k));
    }
}

} // verus!
