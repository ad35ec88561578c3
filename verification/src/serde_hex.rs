//! Encoding and decoding of byte arrays and vectors as `0x`-prefixed,
//! lowercase hex strings.
//!
//! - `decode_hex_vec`: for `Vec<u8>` of any length.
//! - `decode_hex_array32` / `decode_hex_array48`: with exact length
//!   enforcement (32 vs 48 bytes must never be confused).
//! - `encode_lower_hex_prefixed`: the strict `0x` + lowercase encoding.
//!
//! These are the computational halves of the wire codec; hooking them into a
//! serializer framework is a caller's concern.

use vstd::prelude::*;
use vstd::string::StringExecFns;

verus! {

/// Errors that can occur during hex decoding.
#[derive(Clone, Debug)]
pub enum HexSerdeError {
    /// The input string must begin with a `0x` prefix.
    MissingPrefix,
    /// The input contained non-hex characters or an odd number of digits.
    InvalidHex(String),
    /// For fixed-size arrays: the decoded byte length did not match the
    /// expected size.
    LengthMismatch { expected: usize, actual: usize },
}

/// Whether a byte is the ASCII code of a hex digit (either case).
pub open spec fn is_hex_digit(b: u8) -> bool {
    ||| (48 <= b <= 57)  // '0' ..= '9'
    ||| (97 <= b <= 102)  // 'a' ..= 'f'
    ||| (65 <= b <= 70)  // 'A' ..= 'F'
}

/// The numeric value of a hex digit byte.
pub open spec fn hex_digit_value(b: u8) -> u8
    recommends
        is_hex_digit(b),
{
    if 48 <= b <= 57 {
        (b - 48) as u8
    } else if 97 <= b <= 102 {
        (b - 87) as u8
    } else {
        (b - 55) as u8
    }
}

/// A well-formed hex payload: an even number of hex digit bytes.
pub open spec fn valid_hex_body(s: Seq<u8>) -> bool {
    s.len() % 2 == 0 && (forall|i: int| 0 <= i < s.len() ==> is_hex_digit(#[trigger] s[i]))
}

/// The bytes denoted by an even-length sequence of hex digit bytes, two
/// digits per byte, high nibble first.
pub open spec fn hex_decode_bytes(s: Seq<u8>) -> Seq<u8>
    recommends
        valid_hex_body(s),
{
    Seq::new(
        s.len() / 2,
        |i: int| (hex_digit_value(s[2 * i]) * 16 + hex_digit_value(s[2 * i + 1])) as u8,
    )
}

/// The lowercase hex digit character for a nibble.
pub open spec fn hex_lower_char(n: u8) -> char
    recommends
        n < 16,
{
    if n == 0 {
        '0'
    } else if n == 1 {
        '1'
    } else if n == 2 {
        '2'
    } else if n == 3 {
        '3'
    } else if n == 4 {
        '4'
    } else if n == 5 {
        '5'
    } else if n == 6 {
        '6'
    } else if n == 7 {
        '7'
    } else if n == 8 {
        '8'
    } else if n == 9 {
        '9'
    } else if n == 10 {
        'a'
    } else if n == 11 {
        'b'
    } else if n == 12 {
        'c'
    } else if n == 13 {
        'd'
    } else if n == 14 {
        'e'
    } else {
        'f'
    }
}

/// The lowercase hex rendering of a byte sequence: two characters per byte,
/// high nibble first.
pub open spec fn hex_lower_chars(bytes: Seq<u8>) -> Seq<char> {
    Seq::new(
        2 * bytes.len(),
        |i: int|
            if i % 2 == 0 {
                hex_lower_char(bytes[i / 2] / 16)
            } else {
                hex_lower_char(bytes[i / 2] % 16)
            },
    )
}

/// Whether a byte string starts with the ASCII prefix `0x`.
pub open spec fn has_hex_prefix(s: Seq<u8>) -> bool {
    s.len() >= 2 && s[0] == 48 && s[1] == 120
}

/// Relies on `hex::encode`: two lowercase hex digits per input byte, high
/// nibble first; the result depends on the input bytes alone.
#[verifier::external_body]
fn hex_encode_raw(data: &[u8]) -> (r: String)
    ensures
        r@ == hex_lower_chars(data@),
{
    hex::encode(data)
}

/// The error type of `hex::decode`, carried through opaquely.
#[verifier::external_type_specification]
#[verifier::external_body]
pub struct ExFromHexError(hex::FromHexError);

/// Relies on `hex::decode`: succeeds exactly on an even number of hex
/// digits (either case) and returns the denoted bytes.
#[verifier::external_body]
fn hex_decode_raw(data: &[u8]) -> (r: Result<Vec<u8>, hex::FromHexError>)
    ensures
        r matches Ok(_) <==> valid_hex_body(data@),
        r matches Ok(v) ==> v@ == hex_decode_bytes(data@),
{
    hex::decode(data)
}

/// Relies on the `Display` implementation of `hex::FromHexError` for a
/// human-readable description of the failure.
#[verifier::external_body]
fn hex_error_text(e: &hex::FromHexError) -> String {
    format!("{}", e)
}

/// Strips the mandatory `0x` prefix from a hex byte string.
pub fn strip_0x(s: &[u8]) -> (r: Result<&[u8], HexSerdeError>)
    ensures
        match r {
            Ok(rest) => has_hex_prefix(s@) && rest@ == s@.skip(2),
            Err(e) => !has_hex_prefix(s@) && e matches HexSerdeError::MissingPrefix,
        },
{
    // The prefix bytes are ASCII '0' (48) and 'x' (120).
    if s.len() < 2 || s[0] != 48 || s[1] != 120 {
        return Err(HexSerdeError::MissingPrefix);
    }
    let (_, rest) = s.split_at(2);
    assert(rest@ =~= s@.skip(2));
    Ok(rest)
}

/// Encodes bytes as a `0x`-prefixed lowercase hex string.
pub fn encode_lower_hex_prefixed(bytes: &[u8]) -> (r: String)
    ensures
        r@ == seq!['0', 'x'] + hex_lower_chars(bytes@),
{
    let mut out = String::from_str("0x");
    proof {
        reveal_strlit("0x");
        assert(out@ =~= seq!['0', 'x']);
    }
    let digits = hex_encode_raw(bytes);
    out.append(digits.as_str());
    out
}

/// Decodes a `0x`-prefixed hex string into bytes of any length.
pub fn decode_hex_vec(s: &[u8]) -> (r: Result<Vec<u8>, HexSerdeError>)
    ensures
        match r {
            Ok(v) => has_hex_prefix(s@) && valid_hex_body(s@.skip(2)) && v@ == hex_decode_bytes(
                s@.skip(2),
            ),
            Err(e) => match e {
                HexSerdeError::MissingPrefix => !has_hex_prefix(s@),
                HexSerdeError::InvalidHex(_) => has_hex_prefix(s@) && !valid_hex_body(s@.skip(2)),
                _ => false,
            },
        },
{
    let rest = match strip_0x(s) {
        Ok(rest) => rest,
        Err(e) => {
            return Err(e);
        },
    };
    match hex_decode_raw(rest) {
        Ok(v) => Ok(v),
        Err(e) => Err(HexSerdeError::InvalidHex(hex_error_text(&e))),
    }
}

/// Decodes a `0x`-prefixed hex string into exactly 32 bytes.
pub fn decode_hex_array32(s: &[u8]) -> (r: Result<[u8; 32], HexSerdeError>)
    ensures
        match r {
            Ok(arr) => has_hex_prefix(s@) && valid_hex_body(s@.skip(2)) && s@.skip(2).len() == 64
                && arr@ == hex_decode_bytes(s@.skip(2)),
            Err(e) => match e {
                HexSerdeError::MissingPrefix => !has_hex_prefix(s@),
                HexSerdeError::InvalidHex(_) => has_hex_prefix(s@) && !valid_hex_body(s@.skip(2)),
                HexSerdeError::LengthMismatch { expected, actual } => has_hex_prefix(s@)
                    && valid_hex_body(s@.skip(2)) && s@.skip(2).len() != 64 && expected == 32
                    && actual as nat == s@.skip(2).len() / 2,
            },
        },
{
    let v = match decode_hex_vec(s) {
        Ok(v) => v,
        Err(e) => {
            return Err(e);
        },
    };
    if v.len() != 32 {
        return Err(HexSerdeError::LengthMismatch { expected: 32, actual: v.len() });
    }
    let mut arr: [u8; 32] = [0u8; 32];
    let mut i: usize = 0;
    while i < 32
        invariant
            i <= 32,
            v@.len() == 32,
            forall|j: int| 0 <= j < i ==> arr@[j] == v@[j],
        decreases 32 - i,
    {
        arr[i] = v[i];
        i = i + 1;
    }
    proof {
        assert(arr@ =~= v@);
    }
    Ok(arr)
}

/// Decodes a `0x`-prefixed hex string into exactly 48 bytes.
pub fn decode_hex_array48(s: &[u8]) -> (r: Result<[u8; 48], HexSerdeError>)
    ensures
        match r {
            Ok(arr) => has_hex_prefix(s@) && valid_hex_body(s@.skip(2)) && s@.skip(2).len() == 96
                && arr@ == hex_decode_bytes(s@.skip(2)),
            Err(e) => match e {
                HexSerdeError::MissingPrefix => !has_hex_prefix(s@),
                HexSerdeError::InvalidHex(_) => has_hex_prefix(s@) && !valid_hex_body(s@.skip(2)),
                HexSerdeError::LengthMismatch { expected, actual } => has_hex_prefix(s@)
                    && valid_hex_body(s@.skip(2)) && s@.skip(2).len() != 96 && expected == 48
                    && actual as nat == s@.skip(2).len() / 2,
            },
        },
{
    let v = match decode_hex_vec(s) {
        Ok(v) => v,
        Err(e) => {
            return Err(e);
        },
    };
    if v.len() != 48 {
        return Err(HexSerdeError::LengthMismatch { expected: 48, actual: v.len() });
    }
    let mut arr: [u8; 48] = [0u8; 48];
    let mut i: usize = 0;
    while i < 48
        invariant
            i <= 48,
            v@.len() == 48,
            forall|j: int| 0 <= j < i ==> arr@[j] == v@[j],
        decreases 48 - i,
    {
        arr[i] = v[i];
        i = i + 1;
    }
    proof {
        assert(arr@ =~= v@);
    }
    Ok(arr)
}

} // verus!
