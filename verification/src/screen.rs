use vstd::prelude::*;

verus! {

/// Unicode's `White_Space` characters, which `str::trim` removes.
pub open spec fn is_white_space(c: char) -> bool {
    let v = c as u32;
    ||| 0x09 <= v <= 0x0D
    ||| v == 0x20
    ||| v == 0x85
    ||| v == 0xA0
    ||| v == 0x1680
    ||| 0x2000 <= v <= 0x200A
    ||| v == 0x2028
    ||| v == 0x2029
    ||| v == 0x202F
    ||| v == 0x205F
    ||| v == 0x3000
}

/// The text without its leading white space.
pub open spec fn trim_start(s: Seq<char>) -> Seq<char>
    decreases s.len(),
{
    if s.len() > 0 && is_white_space(s[0]) {
        trim_start(s.drop_first())
    } else {
        s
    }
}

/// The text without its trailing white space.
pub open spec fn trim_end(s: Seq<char>) -> Seq<char>
    decreases s.len(),
{
    if s.len() > 0 && is_white_space(s.last()) {
        trim_end(s.drop_last())
    } else {
        s
    }
}

/// The text without leading and trailing white space.
pub open spec fn trim(s: Seq<char>) -> Seq<char> {
    trim_end(trim_start(s))
}

/// `str::trim` from std: per its documentation, the slice with leading and
/// trailing `White_Space` characters removed.
#[verifier::external_body]
fn trim_text<'a>(s: &'a str) -> (t: &'a str)
    ensures
        t@ == trim(s@),
{
    s.trim()
}

/// What the screen shows for a line of input.
#[derive(Clone, Copy, Debug, PartialEq, Eq, Structural)]
pub enum ScreenReply {
    /// The character with this code.
    Character(u8),
    /// The line has the form `0x..` but the two characters are not a byte in
    /// hexadecimal.
    InvalidHex,
    /// The line does not have the form `0x..` or `0X..`.
    InvalidFormat,
}

/// The value of an ASCII hexadecimal digit byte (either case).
pub open spec fn ascii_hex_value(b: u8) -> Option<u8> {
    if 48 <= b <= 57 {
        Some((b - 48) as u8)
    } else if 97 <= b <= 102 {
        Some((b - 87) as u8)
    } else if 65 <= b <= 70 {
        Some((b - 55) as u8)
    } else {
        None
    }
}

/// The byte that two bytes of text spell in hexadecimal, as `u8::from_str_radix`
/// reads them: a leading `+` before a single digit is accepted.
pub open spec fn parse_hex_pair(b0: u8, b1: u8) -> Option<u8> {
    if b0 == 43 {
        ascii_hex_value(b1)
    } else {
        match (ascii_hex_value(b0), ascii_hex_value(b1)) {
            (Some(h), Some(l)) => Some((h * 16 + l) as u8),
            _ => None,
        }
    }
}

/// What the screen shows for the UTF-8 bytes of a trimmed line: four bytes
/// starting `0x` or `0X` name a character by the byte the other two spell.
pub open spec fn screen_decode(bytes: Seq<u8>) -> ScreenReply {
    if bytes.len() == 4 && bytes[0] == 48 && (bytes[1] == 120 || bytes[1] == 88) {
        match parse_hex_pair(bytes[2], bytes[3]) {
            Some(v) => ScreenReply::Character(v),
            None => ScreenReply::InvalidHex,
        }
    } else {
        ScreenReply::InvalidFormat
    }
}

/// The value of an ASCII hexadecimal digit byte.
fn ascii_digit(b: u8) -> (v: Option<u8>)
    ensures
        v == ascii_hex_value(b),
{
    if 48 <= b && b <= 57 {
        Some(b - 48)
    } else if 97 <= b && b <= 102 {
        Some(b - 87)
    } else if 65 <= b && b <= 70 {
        Some(b - 55)
    } else {
        None
    }
}

/// Reads two bytes of text as a hexadecimal byte.
fn hex_pair(b0: u8, b1: u8) -> (v: Option<u8>)
    ensures
        v == parse_hex_pair(b0, b1),
{
    if b0 == 43 {
        return ascii_digit(b1);
    }
    match (ascii_digit(b0), ascii_digit(b1)) {
        (Some(h), Some(l)) => Some(h * 16 + l),
        _ => None,
    }
}

/// What the screen shows for a line of input: the line is trimmed, then a
/// line of the form `0xHH` (or `0XHH`, four bytes in all) names the
/// character with code `HH`.
pub fn screen_reply(line: &str) -> (reply: ScreenReply)
    ensures
        reply == screen_decode(vstd::utf8::encode_utf8(trim(line@))),
{
    let trimmed: &str = trim_text(line);
    let bytes: &[u8] = trimmed.as_bytes();
    if bytes.len() == 4 && bytes[0] == 48 && (bytes[1] == 120 || bytes[1] == 88) {
        match hex_pair(bytes[2], bytes[3]) {
            Some(v) => ScreenReply::Character(v),
            None => ScreenReply::InvalidHex,
        }
    } else {
        ScreenReply::InvalidFormat
    }
}

} // verus!

verus! {

/// Every ASCII hexadecimal digit has its conventional value, either case of
/// a letter alike, and no other byte is a digit.
pub proof fn lemma_ascii_hex_value_meaning(b: u8)
    ensures
        48 <= b <= 57 ==> ascii_hex_value(b) == Some((b - 48) as u8),
        97 <= b <= 102 ==> ascii_hex_value(b) == Some((b - 87) as u8),
        97 <= b <= 102 ==> ascii_hex_value((b - 32) as u8) == ascii_hex_value(b),
        !(48 <= b <= 57) && !(97 <= b <= 102) && !(65 <= b <= 70) ==> ascii_hex_value(b)
            is None,
        ascii_hex_value(b) matches Some(v) ==> v < 16,
{
}

/// The screen's digit reader and the program image's digit reader agree on
/// every ASCII character.
pub proof fn lemma_digit_readers_agree(b: u8)
    requires
        b < 128,
    ensures
        ascii_hex_value(b) is Some <==> crate::hex::is_hex_digit(b as char),
        ascii_hex_value(b) matches Some(v) ==> v == crate::hex::hex_value(b as char),
{
}

/// A line `0x` followed by the two hexadecimal digits written for a byte
/// (in either case) shows the character with that code, for every byte.
pub proof fn lemma_screen_reads_hex_text(x: u8, upper: bool)
    ensures
        ({
            let h = crate::hex::hex_digit_byte(x / 16);
            let l = crate::hex::hex_digit_byte(x % 16);
            let hh = if upper {
                crate::hex::upper_byte(h)
            } else {
                h
            };
            let ll = if upper {
                crate::hex::upper_byte(l)
            } else {
                l
            };
            &&& screen_decode(seq![48u8, 120u8, hh, ll]) == ScreenReply::Character(x)
            &&& screen_decode(seq![48u8, 88u8, hh, ll]) == ScreenReply::Character(x)
        }),
{
}

/// A leading `+` before one digit names the character with that digit's
/// value; two digits `H` and `L` name `16 * H + L`.
pub proof fn lemma_hex_pair_meaning(b0: u8, b1: u8)
    ensures
        b0 == 43 ==> parse_hex_pair(b0, b1) == ascii_hex_value(b1),
        (b0 != 43 && ascii_hex_value(b0) is Some && ascii_hex_value(b1) is Some) ==> parse_hex_pair(
            b0,
            b1,
        ) == Some((16 * ascii_hex_value(b0).unwrap() + ascii_hex_value(b1).unwrap()) as u8),
        (b0 != 43 && (ascii_hex_value(b0) is None || ascii_hex_value(b1) is None)) ==> parse_hex_pair(
            b0,
            b1,
        ) is None,
{
}

} // verus!

verus! {

/// A line is rejected as malformed exactly when it is not four bytes
/// starting with `0x` or `0X`; a well-formed line shows a character exactly
/// when its last two bytes read as a hexadecimal byte.
pub proof fn lemma_screen_format(bytes: Seq<u8>)
    ensures
        (screen_decode(bytes) == ScreenReply::InvalidFormat) <==> !(bytes.len() == 4 && bytes[0]
            == 48 && (bytes[1] == 120 || bytes[1] == 88)),
        screen_decode(bytes) matches ScreenReply::Character(v) ==> parse_hex_pair(bytes[2], bytes[3])
            == Some(v),
        screen_decode(bytes) == ScreenReply::InvalidHex ==> parse_hex_pair(bytes[2], bytes[3])
            is None,
{
}

} // verus!
