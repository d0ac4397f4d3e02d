//! Hexadecimal and decimal text: what it means, and the outside functions that
//! encode and decode it.

use core::num::IntErrorKind;
use vstd::prelude::*;

verus! {

#[verifier::external_type_specification]
#[verifier::external_body]
pub struct ExParseIntError(core::num::ParseIntError);

/// Whether `c` is a hexadecimal digit, in either case.
pub open spec fn is_hex_digit(c: char) -> bool {
    ('0' <= c && c <= '9') || ('a' <= c && c <= 'f') || ('A' <= c && c <= 'F')
}

/// The value of a hexadecimal digit.
pub open spec fn hex_digit_value(c: char) -> int {
    if '0' <= c && c <= '9' {
        c as int - '0' as int
    } else if 'a' <= c && c <= 'f' {
        c as int - 'a' as int + 10
    } else {
        c as int - 'A' as int + 10
    }
}

/// Whether a text is an even number of hexadecimal digits.
pub open spec fn is_hex_text(s: Seq<char>) -> bool {
    s.len() % 2 == 0 && forall|i: int| 0 <= i < s.len() ==> is_hex_digit(#[trigger] s[i])
}

/// The bytes that a hexadecimal text stands for, two digits per byte, the
/// high half first.
pub open spec fn hex_bytes(s: Seq<char>) -> Seq<u8> {
    Seq::new(
        s.len() / 2,
        |i: int| (16 * hex_digit_value(s[2 * i]) + hex_digit_value(s[2 * i + 1])) as u8,
    )
}

/// The lower-case hexadecimal digit of a value below 16.
pub open spec fn lower_hex_digit(n: int) -> char {
    if n < 10 {
        (n + '0' as int) as char
    } else {
        (n - 10 + 'a' as int) as char
    }
}

/// The lower-case hexadecimal text of bytes, two digits per byte, the high
/// half first.
pub open spec fn hex_lower(b: Seq<u8>) -> Seq<char> {
    Seq::new(
        2 * b.len(),
        |i: int|
            if i % 2 == 0 {
                lower_hex_digit(b[i / 2] as int / 16)
            } else {
                lower_hex_digit(b[i / 2] as int % 16)
            },
    )
}

/// The digits of a decimal text after an optional leading `+`.
pub open spec fn decimal_digits(s: Seq<char>) -> Seq<char> {
    if s.len() > 0 && s[0] == '+' {
        s.drop_first()
    } else {
        s
    }
}

/// Whether a text is an optional `+` followed by one or more decimal digits.
pub open spec fn is_decimal_text(s: Seq<char>) -> bool {
    let d = decimal_digits(s);
    d.len() > 0 && forall|i: int| 0 <= i < d.len() ==> '0' <= #[trigger] d[i] && d[i] <= '9'
}

/// The value of a sequence of decimal digits.
pub open spec fn decimal_value(d: Seq<char>) -> nat
    decreases d.len(),
{
    if d.len() == 0 {
        0
    } else {
        10 * decimal_value(d.drop_last()) + (d.last() as int - '0' as int) as nat
    }
}

/// `hex::encode`: the lower-case hexadecimal text of the bytes.
#[verifier::external_body]
pub(crate) fn hex_encode(data: &[u8]) -> (r: String)
    ensures
        r@ == hex_lower(data@),
{
    hex::encode(data)
}

/// Why a text does not decode as hexadecimal: the variants of
/// `hex::FromHexError`, with their fields.
#[derive(Debug, Clone, Copy, PartialEq, Eq, Structural)]
pub enum HexFailure {
    /// The character at byte position `index` is not a hexadecimal digit.
    InvalidHexCharacter { c: char, index: usize },
    /// The text has an odd number of bytes.
    OddLength,
    /// The text does not fit a container of fixed size.
    InvalidStringLength,
}

/// Whether every character of a text is ASCII, so that its characters are
/// its bytes.
pub open spec fn is_ascii_text(s: Seq<char>) -> bool {
    forall|i: int| 0 <= i < s.len() ==> (#[trigger] s[i]) < 128 as char
}

/// The position of the first character of a text that is not a hexadecimal
/// digit (the text's length where there is none).
pub open spec fn first_non_hex(s: Seq<char>) -> int
    decreases s.len(),
{
    if s.len() == 0 || !is_hex_digit(s[0]) {
        0
    } else {
        1 + first_non_hex(s.drop_first())
    }
}

/// Whether `e` is the failure that decoding text `s` reports: never a wrong
/// container length; for an ASCII text, an odd length where the length is
/// odd, and otherwise the first character that is not a hexadecimal digit,
/// with its position.
pub open spec fn hex_failure_of(s: Seq<char>, e: HexFailure) -> bool {
    &&& e !is InvalidStringLength
    &&& is_ascii_text(s) ==> e == if s.len() % 2 != 0 {
        HexFailure::OddLength
    } else {
        HexFailure::InvalidHexCharacter {
            c: s[first_non_hex(s)],
            index: first_non_hex(s) as usize,
        }
    }
}

/// `hex::decode`: the bytes of a text that is an even number of hexadecimal
/// digits (in either case), and an error for any other text. The decoder
/// works on the text's bytes: for a text that is not ASCII, which of an odd
/// length or a bad character it reports, and at which byte, is not stated.
#[verifier::external_body]
pub(crate) fn hex_decode(text: &str) -> (r: Result<Vec<u8>, HexFailure>)
    ensures
        r is Ok <==> is_hex_text(text@),
        r matches Ok(v) ==> v@ == hex_bytes(text@),
        r matches Err(e) ==> hex_failure_of(text@, e),
{
    match hex::decode(text) {
        Ok(v) => Ok(v),
        Err(hex::FromHexError::InvalidHexCharacter { c, index }) => Err(
            HexFailure::InvalidHexCharacter { c, index },
        ),
        Err(hex::FromHexError::OddLength) => Err(HexFailure::OddLength),
        Err(hex::FromHexError::InvalidStringLength) => Err(HexFailure::InvalidStringLength),
    }
}

/// Whether `c` is an ASCII letter or digit.
pub open spec fn is_ascii_alphanumeric(c: char) -> bool {
    ('0' <= c && c <= '9') || ('a' <= c && c <= 'z') || ('A' <= c && c <= 'Z')
}

/// Whether `t` is the text that `hex::FromHexError` displays for failure `e`.
/// Of a bad character it fixes the character's quoted form only for ASCII
/// letters and digits.
pub open spec fn hex_failure_text_of(e: HexFailure, t: Seq<char>) -> bool {
    match e {
        HexFailure::OddLength => t == "Odd number of digits"@,
        HexFailure::InvalidStringLength => t == "Invalid string length"@,
        HexFailure::InvalidHexCharacter { c, index } => exists|q: Seq<char>|
            t == "Invalid character "@ + q + " at position "@ + decimal_text(index as nat) && (
            is_ascii_alphanumeric(c) ==> q == seq!['\'', c, '\'']),
    }
}

/// The text of a failure to decode hexadecimal text, as `hex::FromHexError`
/// displays it. How a bad character other than an ASCII letter or digit is
/// quoted (the character's debug form) is not stated.
#[verifier::external_body]
pub(crate) fn hex_failure_text(e: HexFailure) -> (r: String)
    ensures
        hex_failure_text_of(e, r@),
{
    let e = match e {
        HexFailure::InvalidHexCharacter { c, index } => hex::FromHexError::InvalidHexCharacter {
            c,
            index,
        },
        HexFailure::OddLength => hex::FromHexError::OddLength,
        HexFailure::InvalidStringLength => hex::FromHexError::InvalidStringLength,
    };
    e.to_string()
}

/// The kind of a failed integer parse, from `core::num::IntErrorKind`; the
/// kinds an unsigned parse is not documented to give are `Other`.
#[derive(Debug, Clone, Copy, PartialEq, Eq, Structural)]
pub enum IntFailure {
    Empty,
    InvalidDigit,
    PosOverflow,
    Other,
}

/// A failed integer parse: its kind, and the parser's error itself.
#[derive(Debug)]
pub struct IntParseError {
    pub kind: IntFailure,
    pub error: core::num::ParseIntError,
}

/// Whether `k` is the kind of failure that parsing text `s` into an unsigned
/// integer of largest value `max` reports, as far as the parser's
/// documentation fixes it: `Empty` for the empty text, `InvalidDigit` for a
/// sign on its own, `PosOverflow` for a decimal text whose value is too large.
pub open spec fn int_failure_of(s: Seq<char>, max: int, k: IntFailure) -> bool {
    &&& s.len() == 0 ==> k == IntFailure::Empty
    &&& (s == seq!['+'] || s == seq!['-']) ==> k == IntFailure::InvalidDigit
    &&& (is_decimal_text(s) && decimal_value(decimal_digits(s)) > max) ==> k
        == IntFailure::PosOverflow
}

/// `str::parse::<u8>`: the value of a decimal text (an optional `+` and one or
/// more digits) that fits in a `u8`, and an error for any other text. For a
/// text that is neither empty, nor a sign alone, nor a decimal text, which
/// kind of error the parser reports is not stated.
#[verifier::external_body]
pub(crate) fn parse_u8(text: &str) -> (r: Result<u8, IntParseError>)
    ensures
        r is Ok <==> (is_decimal_text(text@) && decimal_value(decimal_digits(text@)) <= u8::MAX),
        r matches Ok(v) ==> v == decimal_value(decimal_digits(text@)),
        r matches Err(e) ==> int_failure_of(text@, u8::MAX as int, e.kind),
{
    match text.parse::<u8>() {
        Ok(v) => Ok(v),
        Err(e) => {
            let kind = match e.kind() {
                IntErrorKind::Empty => IntFailure::Empty,
                IntErrorKind::InvalidDigit => IntFailure::InvalidDigit,
                IntErrorKind::PosOverflow => IntFailure::PosOverflow,
                _ => IntFailure::Other,
            };
            Err(IntParseError { kind, error: e })
        },
    }
}

/// The text of a failed integer parse, as `core::num::ParseIntError` displays
/// it. The parser's documentation does not give its texts, so nothing is
/// stated of it.
#[verifier::external_body]
pub(crate) fn int_error_text(e: &IntParseError) -> (r: String) {
    e.error.to_string()
}

/// `str::parse::<u64>`: the value of a decimal text (an optional `+` and one or
/// more digits) that fits in a `u64`, and an error for any other text. For a
/// text that is neither empty, nor a sign alone, nor a decimal text, which
/// kind of error the parser reports is not stated.
#[verifier::external_body]
pub(crate) fn parse_u64(text: &str) -> (r: Result<u64, IntParseError>)
    ensures
        r is Ok <==> (is_decimal_text(text@) && decimal_value(decimal_digits(text@)) <= u64::MAX),
        r matches Ok(v) ==> v == decimal_value(decimal_digits(text@)),
        r matches Err(e) ==> int_failure_of(text@, u64::MAX as int, e.kind),
{
    match text.parse::<u64>() {
        Ok(v) => Ok(v),
        Err(e) => {
            let kind = match e.kind() {
                IntErrorKind::Empty => IntFailure::Empty,
                IntErrorKind::InvalidDigit => IntFailure::InvalidDigit,
                IntErrorKind::PosOverflow => IntFailure::PosOverflow,
                _ => IntFailure::Other,
            };
            Err(IntParseError { kind, error: e })
        },
    }
}

/// The text before and after the first `:` of `text`, if it has one.
pub fn split_at_colon(text: &str) -> (r: Option<(&str, &str)>)
    ensures
        match r {
            Some((a, b)) => a@ + seq![':'] + b@ == text@ && !a@.contains(':'),
            None => !text@.contains(':'),
        },
{
    let n = text.unicode_len();
    let mut i: usize = 0;
    while i < n && text.get_char(i) != ':'
        invariant
            n == text@.len(),
            i <= n,
            forall|j: int| 0 <= j < i ==> text@[j] != ':',
        decreases n - i,
    {
        i = i + 1;
    }
    if i == n {
        return None;
    }
    let a = text.substring_char(0, i);
    let b = text.substring_char(i + 1, n);
    assert(a@ + seq![':'] + b@ =~= text@);
    Some((a, b))
}

/// The decimal text of a number, without leading zeros.
pub open spec fn decimal_text(n: nat) -> Seq<char>
    decreases n,
{
    if n < 10 {
        seq![(n + '0' as int) as char]
    } else {
        decimal_text(n / 10).push(((n % 10) + '0' as int) as char)
    }
}

/// The one-character text of a decimal digit.
fn digit_text(d: u64) -> (r: &'static str)
    requires
        d < 10,
    ensures
        r@ == seq![(d + '0' as int) as char],
{
    proof {
        reveal_strlit("0");
        reveal_strlit("1");
        reveal_strlit("2");
        reveal_strlit("3");
        reveal_strlit("4");
        reveal_strlit("5");
        reveal_strlit("6");
        reveal_strlit("7");
        reveal_strlit("8");
        reveal_strlit("9");
    }
    match d {
        0 => "0",
        1 => "1",
        2 => "2",
        3 => "3",
        4 => "4",
        5 => "5",
        6 => "6",
        7 => "7",
        8 => "8",
        _ => "9",
    }
}

/// The decimal text of a number, without leading zeros.
pub fn decimal_string(n: u64) -> (r: String)
    ensures
        r@ == decimal_text(n as nat),
    decreases n,
{
    if n < 10 {
        digit_text(n).to_owned()
    } else {
        let mut s = decimal_string(n / 10);
        s.append(digit_text(n % 10));
        s
    }
}

} // verus!
