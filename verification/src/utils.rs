use vstd::prelude::*;

use vstd::string::StringSliceAdditionalSpecFns;

verus! {

/// Why a hexadecimal numeral was rejected.
#[derive(Debug, Clone, Copy, PartialEq, Eq, Structural)]
pub enum HexParseError {
    /// The input held no characters at all.
    Empty,
    /// A character was not a hexadecimal digit.
    InvalidDigit,
    /// The numeral's value does not fit in one byte.
    TooLarge,
}

/// Whether `c` is a hexadecimal digit: 0-9, a-f or A-F.
pub open spec fn spec_is_hex_digit_char(c: char) -> bool {
    (48 <= c as u32 <= 57) || (97 <= c as u32 <= 102) || (65 <= c as u32 <= 70)
}

/// Whether the byte `b` is a hexadecimal digit: 0-9, a-f or A-F.
pub open spec fn spec_is_hex_digit_byte(b: u8) -> bool {
    (48 <= b <= 57) || (97 <= b <= 102) || (65 <= b <= 70)
}

/// The value of one hexadecimal digit byte.
pub open spec fn spec_hex_digit_value(b: u8) -> int {
    if 48 <= b <= 57 {
        b - 48
    } else if 97 <= b <= 102 {
        b - 87
    } else {
        b - 55
    }
}

/// The parse of a hexadecimal numeral, scanned left to right from
/// position `i` with the value `acc` already read: the first character
/// that is no hex digit rejects it, a value passing one byte rejects it,
/// and otherwise the accumulated value is the answer.
pub open spec fn spec_scan_hex(s: Seq<u8>, i: int, acc: int) -> Result<u8, HexParseError>
    decreases s.len() - i,
{
    if i < 0 || i >= s.len() {
        Ok(acc as u8)
    } else if !spec_is_hex_digit_byte(s[i]) {
        Err(HexParseError::InvalidDigit)
    } else if acc * 16 + spec_hex_digit_value(s[i]) > 255 {
        Err(HexParseError::TooLarge)
    } else {
        spec_scan_hex(s, i + 1, acc * 16 + spec_hex_digit_value(s[i]))
    }
}

/// What parsing a hexadecimal byte numeral yields: an empty input is
/// rejected, and otherwise the numeral is scanned left to right.
pub open spec fn spec_from_hex(s: Seq<u8>) -> Result<u8, HexParseError> {
    if s.len() == 0 {
        Err(HexParseError::Empty)
    } else {
        spec_scan_hex(s, 0, 0)
    }
}

/// Whether `c` is a hexadecimal digit.
pub fn is_hex_digit(c: char) -> (r: bool)
    ensures
        r == spec_is_hex_digit_char(c),
{
    let v = c as u32;
    (48 <= v && v <= 57) || (97 <= v && v <= 102) || (65 <= v && v <= 70)
}

/// Parse a hexadecimal numeral as one byte: `Ok` exactly when the input
/// is nonempty, made of hex digits alone, and worth at most 255.
pub fn from_hex(input: &str) -> (r: Result<u8, HexParseError>)
    ensures
        r == spec_from_hex(input.spec_bytes()),
{
    let bs = input.as_bytes();
    if bs.len() == 0 {
        return Err(HexParseError::Empty);
    }
    let mut acc: u16 = 0;
    let mut i: usize = 0;
    while i < bs.len()
        invariant
            bs@ == input.spec_bytes(),
            bs@.len() > 0,
            i <= bs@.len(),
            acc <= 255,
            spec_scan_hex(bs@, 0, 0) == spec_scan_hex(bs@, i as int, acc as int),
        decreases bs@.len() - i,
    {
        let b = bs[i];
        let v: u16 = if 48 <= b && b <= 57 {
            (b - 48) as u16
        } else if 97 <= b && b <= 102 {
            (b - 87) as u16
        } else if 65 <= b && b <= 70 {
            (b - 55) as u16
        } else {
            return Err(HexParseError::InvalidDigit);
        };
        if acc * 16 + v > 255 {
            return Err(HexParseError::TooLarge);
        }
        acc = acc * 16 + v;
        i = i + 1;
    }
    Ok(acc as u8)
}

} // verus!
