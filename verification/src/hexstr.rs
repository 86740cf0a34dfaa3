//! Hexadecimal text.
use vstd::prelude::*;

verus! {

/// The value of a hexadecimal digit, in either case.
pub open spec fn hex_digit(b: u8) -> Option<u8> {
    if 0x30 <= b <= 0x39 {
        Some((b - 0x30) as u8)
    } else if 0x41 <= b <= 0x46 {
        Some((b - 0x41 + 10) as u8)
    } else if 0x61 <= b <= 0x66 {
        Some((b - 0x61 + 10) as u8)
    } else {
        None
    }
}

/// Whether every byte is a hexadecimal digit.
pub open spec fn all_hex(text: Seq<u8>) -> bool {
    forall|i: int| 0 <= i < text.len() ==> hex_digit(#[trigger] text[i]) is Some
}

/// The bytes that pairs of hexadecimal digits spell, high digit first.
pub open spec fn hex_bytes(text: Seq<u8>) -> Seq<u8> {
    Seq::new(
        text.len() / 2,
        |i: int| (hex_digit(text[2 * i])->0 * 16 + hex_digit(text[2 * i + 1])->0) as u8,
    )
}

/// The number that hexadecimal digits spell.
pub open spec fn hex_number(text: Seq<u8>) -> nat
    decreases text.len(),
{
    if text.len() == 0 {
        0
    } else {
        hex_number(text.drop_last()) * 16 + hex_digit(text.last())->0 as nat
    }
}

/// Why a text is not a run of hexadecimal byte pairs.
#[derive(Debug, Clone, Copy, PartialEq, Eq, Structural)]
pub enum HexError {
    /// A byte that is no hexadecimal digit, and where it stands.
    InvalidCharacter { c: char, index: usize },
    /// The text has an odd number of digits.
    OddLength,
    /// The text does not fill the buffer it is decoded to.
    InvalidLength,
}

/// Decodes hexadecimal text with `hex::decode`, which takes digits of either
/// case: an odd length is refused first, then the first byte that is no digit
/// is reported with its position, else each pair of digits gives one byte.
#[verifier::external_body]
pub(crate) fn decode(text: &[u8]) -> (r: Result<Vec<u8>, HexError>)
    ensures
        match r {
            Ok(bytes) => text@.len() % 2 == 0 && all_hex(text@) && bytes@ == hex_bytes(text@),
            Err(HexError::OddLength) => text@.len() % 2 == 1,
            Err(HexError::InvalidCharacter { c, index }) => {
                &&& text@.len() % 2 == 0
                &&& index < text@.len()
                &&& all_hex(text@.take(index as int))
                &&& hex_digit(text@[index as int]) is None
                &&& c == text@[index as int] as char
            },
            Err(HexError::InvalidLength) => false,
        },
{
    match hex::decode(text) {
        Ok(bytes) => Ok(bytes),
        Err(hex::FromHexError::OddLength) => Err(HexError::OddLength),
        Err(hex::FromHexError::InvalidHexCharacter { c, index }) => Err(
            HexError::InvalidCharacter { c, index },
        ),
        Err(hex::FromHexError::InvalidStringLength) => Err(HexError::InvalidLength),
    }
}

/// The value of a hexadecimal digit.
fn digit(b: u8) -> (r: Option<u8>)
    ensures
        r == hex_digit(b),
{
    if 0x30 <= b && b <= 0x39 {
        Some(b - 0x30)
    } else if 0x41 <= b && b <= 0x46 {
        Some(b - 0x41 + 10)
    } else if 0x61 <= b && b <= 0x66 {
        Some(b - 0x61 + 10)
    } else {
        None
    }
}

/// Reads a number of at most sixteen hexadecimal digits.
pub(crate) fn parse_u64(text: &[u8]) -> (r: Option<u64>)
    requires
        0 < text@.len() <= 16,
    ensures
        match r {
            Some(v) => all_hex(text@) && v == hex_number(text@),
            None => !all_hex(text@),
        },
{
    let n: usize = text.len();
    let mut v: u64 = 0;
    let mut i: usize = 0;
    proof {
        vstd::arithmetic::power::lemma_pow0(16);
    }
    while i < n
        invariant
            n == text@.len(),
            n <= 16,
            i <= n,
            all_hex(text@.take(i as int)),
            v == hex_number(text@.take(i as int)),
            v < vstd::arithmetic::power::pow(16, i as nat),
        decreases n - i,
    {
        assert(text@.take(i + 1).drop_last() =~= text@.take(i as int));
        match digit(text[i]) {
            Some(d) => {
                proof {
                    vstd::arithmetic::power::lemma_pow_increases(16, (i + 1) as nat, 16);
                    assert(vstd::arithmetic::power::pow(16, 16) == 0x1_0000_0000_0000_0000) by {
                        reveal_with_fuel(vstd::arithmetic::power::pow, 17);
                    }
                    reveal_with_fuel(vstd::arithmetic::power::pow, 2);
                }
                v = v * 16 + d as u64;
            },
            None => {
                assert(hex_digit(text@[i as int]) is None);
                return None;
            },
        }
        i = i + 1;
    }
    assert(text@.take(n as int) =~= text@);
    Some(v)
}

/// The lower-case hexadecimal digit of a number below sixteen.
pub open spec fn digit_of(n: int) -> u8 {
    if n < 10 {
        (48 + n) as u8
    } else {
        (87 + n) as u8
    }
}

/// Bytes spelled as pairs of hexadecimal digits, high digit first.
pub open spec fn spelled(bytes: Seq<u8>) -> Seq<u8> {
    Seq::new(
        2 * bytes.len(),
        |i: int|
            if i % 2 == 0 {
                digit_of(bytes[i / 2] as int / 16)
            } else {
                digit_of(bytes[i / 2] as int % 16)
            },
    )
}

/// The number that bytes spell, highest first.
pub open spec fn big_endian(bytes: Seq<u8>) -> nat
    decreases bytes.len(),
{
    if bytes.len() == 0 {
        0
    } else {
        big_endian(bytes.drop_last()) * 256 + bytes.last() as nat
    }
}

/// The digits are those from 0 to 9 and from a to f, in either case, in the order of
/// their values.
pub proof fn law_digits(b: u8, n: int)
    requires
        0 <= n < 16,
    ensures
        hex_digit(b) == Some(n as u8) <==> b == digit_of(n) || (n >= 10 && b == digit_of(n) - 32),
        hex_digit(b) matches Some(d) ==> d < 16,
        hex_digit(b) is None <==> !(48 <= b <= 57 || 65 <= b <= 70 || 97 <= b <= 102),
{
}

/// Bytes that are spelled out are read back, as bytes and as a number.
pub proof fn law_spelled_bytes_are_read_back(bytes: Seq<u8>)
    ensures
        all_hex(spelled(bytes)),
        hex_bytes(spelled(bytes)) == bytes,
        hex_number(spelled(bytes)) == big_endian(bytes),
    decreases bytes.len(),
{
    let text = spelled(bytes);
    assert forall|i: int| 0 <= i < text.len() implies hex_digit(#[trigger] text[i]) is Some by {
        law_digits(text[i], bytes[i / 2] as int / 16);
        law_digits(text[i], bytes[i / 2] as int % 16);
    }
    assert forall|i: int| 0 <= i < bytes.len() implies #[trigger] hex_bytes(text)[i] == bytes[i] by {
        assert(2 * i / 2 == i && (2 * i + 1) / 2 == i && (2 * i) % 2 == 0 && (2 * i + 1) % 2 == 1);
        law_digits(text[2 * i], bytes[i] as int / 16);
        law_digits(text[2 * i + 1], bytes[i] as int % 16);
    }
    assert(hex_bytes(text) =~= bytes);
    if bytes.len() > 0 {
        let n = bytes.len() as int;
        law_spelled_bytes_are_read_back(bytes.drop_last());
        assert(text.drop_last().drop_last() =~= spelled(bytes.drop_last()));
        assert((2 * n - 2) / 2 == n - 1 && (2 * n - 1) / 2 == n - 1 && (2 * n - 2) % 2 == 0 && (2
            * n - 1) % 2 == 1);
        let (hi, lo) = (bytes.last() as int / 16, bytes.last() as int % 16);
        law_digits(text[2 * n - 2], hi);
        law_digits(text[2 * n - 1], lo);
        assert(text.drop_last().last() == text[2 * n - 2] && text.last() == text[2 * n - 1]);
        let before = hex_number(spelled(bytes.drop_last()));
        assert(hex_number(text.drop_last()) == before * 16 + hi);
        assert(hex_number(text) == (before * 16 + hi) * 16 + lo);
    }
}

} // verus!
