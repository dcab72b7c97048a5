use vstd::prelude::*;

verus! {

/// A character that the hexadecimal decoder accepts: one whose low byte is an
/// ASCII decimal digit, or one of the letters `a`..=`f` and `A`..=`F`.
pub open spec fn is_hex_digit(c: char) -> bool {
    ||| 48 <= (c as u8) < 58
    ||| 'a' <= c <= 'f'
    ||| 'A' <= c <= 'F'
}

/// The value of an accepted hexadecimal digit.
pub open spec fn hex_value(c: char) -> nat {
    if 48 <= (c as u8) < 58 {
        ((c as u8) - 48) as nat
    } else if 'a' <= c <= 'f' {
        ((c as u32) - 87) as nat
    } else if 'A' <= c <= 'F' {
        ((c as u32) - 55) as nat
    } else {
        0
    }
}

/// The byte that two digits spell, `high` being the more significant one.
pub open spec fn byte_value(low: char, high: char) -> nat {
    hex_value(low) + 16 * hex_value(high)
}

/// Whether the decoder accepts `c`.
pub fn is_hex_digit_char(c: char) -> (ok: bool)
    ensures
        ok == is_hex_digit(c),
{
    let b: u8 = c as u8;
    (48 <= b && b < 58) || ('a' <= c && c <= 'f') || ('A' <= c && c <= 'F')
}

/// Decodes one hexadecimal digit.
fn digit_value(c: char) -> (v: u8)
    requires
        is_hex_digit(c),
    ensures
        v == hex_value(c),
        v < 16,
{
    let b: u8 = c as u8;
    if b >= 48 && b - 48 < 10 {
        b - 48
    } else {
        match c {
            'a' | 'A' => 10,
            'b' | 'B' => 11,
            'c' | 'C' => 12,
            'd' | 'D' => 13,
            'e' | 'E' => 14,
            _ => 15,
        }
    }
}

/// Decodes a byte written as two hexadecimal digits: `first_char` is the low
/// digit and `second_char` the high one.
pub fn hex_to_dec(first_char: char, second_char: char) -> (result: u8)
    requires
        is_hex_digit(first_char),
        is_hex_digit(second_char),
    ensures
        result == byte_value(first_char, second_char),
{
    let low: u8 = digit_value(first_char);
    let high: u8 = digit_value(second_char);
    low + high * 16
}

} // verus!

verus! {

/// The three header bytes of a program image, as the loader weights them:
/// the first by 256, the second by 16 and the third by 1.
pub open spec fn program_length(program: Seq<char>) -> nat {
    byte_value(program[1], program[0]) * 256 + byte_value(program[3], program[2]) * 16
        + byte_value(program[5], program[4])
}

/// The characters `text[start..start + 2 * n]` are all hexadecimal digits.
pub open spec fn hex_digits_from(text: Seq<char>, start: int, n: int) -> bool {
    &&& 0 <= start
    &&& start + 2 * n <= text.len()
    &&& forall|i: int| start <= i < start + 2 * n ==> #[trigger] is_hex_digit(text[i])
}

/// Reads the length header of a program image: the number of bytes that
/// follow it.
pub fn get_len(program: Vec<char>) -> (len: u32)
    requires
        hex_digits_from(program@, 0, 3),
    ensures
        len == program_length(program@),
{
    header_length(&program)
}

/// Reads the length header of a program image without taking it.
pub fn header_length(program: &Vec<char>) -> (len: u32)
    requires
        hex_digits_from(program@, 0, 3),
    ensures
        len == program_length(program@),
        len <= 255 * 256 + 255 * 16 + 255,
{
    assert(is_hex_digit(program@[0]) && is_hex_digit(program@[1]) && is_hex_digit(program@[2]));
    assert(is_hex_digit(program@[3]) && is_hex_digit(program@[4]) && is_hex_digit(program@[5]));
    let b0: u8 = hex_to_dec(program[1], program[0]);
    let b1: u8 = hex_to_dec(program[3], program[2]);
    let b2: u8 = hex_to_dec(program[5], program[4]);
    b0 as u32 * 256 + b1 as u32 * 16 + b2 as u32
}

/// Each byte taken as the character with that code, as the readers of the
/// program file and of the input port file do.
pub open spec fn chars_of(bytes: Seq<u8>) -> Seq<char> {
    Seq::new(bytes.len(), |i: int| bytes[i] as char)
}

/// Converts the bytes read from a file into characters, one per byte.
pub fn chars_from_bytes(bytes: &[u8]) -> (chars: Vec<char>)
    ensures
        chars@ == chars_of(bytes@),
{
    let mut chars: Vec<char> = Vec::new();
    let mut i: usize = 0;
    while i < bytes.len()
        invariant
            i <= bytes@.len(),
            chars@ == chars_of(bytes@.subrange(0, i as int)),
        decreases bytes@.len() - i,
    {
        let c: char = bytes[i] as char;
        chars.push(c);
        i = i + 1;
        assert(chars_of(bytes@.subrange(0, i as int)) =~= chars_of(bytes@.subrange(0, i - 1)).push(c));
    }
    assert(bytes@.subrange(0, bytes@.len() as int) =~= bytes@);
    chars
}

/// The lower-case ASCII digit for a value below 16.
pub open spec fn hex_digit_byte(v: u8) -> u8 {
    if v < 10 {
        (48 + v) as u8
    } else {
        (87 + v) as u8
    }
}

/// Two lower-case hexadecimal digits per byte, most significant first.
pub open spec fn hex_text(bytes: Seq<u8>) -> Seq<u8> {
    Seq::new(
        2 * bytes.len(),
        |i: int|
            if i % 2 == 0 {
                hex_digit_byte(bytes[i / 2] / 16)
            } else {
                hex_digit_byte(bytes[i / 2] % 16)
            },
    )
}

/// The lower-case ASCII digit for a value below 16.
fn digit_byte(v: u8) -> (d: u8)
    requires
        v < 16,
    ensures
        d == hex_digit_byte(v),
{
    if v < 10 {
        48 + v
    } else {
        87 + v
    }
}

/// Writes each byte as two lower-case hexadecimal digits.
pub fn to_hex_text(bytes: &[u8]) -> (text: Vec<u8>)
    requires
        bytes@.len() <= usize::MAX / 2,
    ensures
        text@ == hex_text(bytes@),
{
    let mut text: Vec<u8> = Vec::new();
    let mut i: usize = 0;
    while i < bytes.len()
        invariant
            i <= bytes@.len() <= usize::MAX / 2,
            text@ =~= hex_text(bytes@.subrange(0, i as int)),
        decreases bytes@.len() - i,
    {
        let b: u8 = bytes[i];
        text.push(digit_byte(b / 16));
        text.push(digit_byte(b % 16));
        i = i + 1;
        assert(text@ =~= hex_text(bytes@.subrange(0, i as int)));
    }
    assert(bytes@.subrange(0, bytes@.len() as int) =~= bytes@);
    text
}

/// Decoding the two digits that `hex_text` writes for a byte gives the byte
/// back.
pub proof fn lemma_hex_digit_roundtrip(b: u8)
    ensures
        is_hex_digit(hex_digit_byte(b / 16) as char),
        is_hex_digit(hex_digit_byte(b % 16) as char),
        byte_value(hex_digit_byte(b % 16) as char, hex_digit_byte(b / 16) as char) == b,
{
}

} // verus!

verus! {

/// The upper-case form of a lower-case ASCII letter code.
pub open spec fn upper_byte(b: u8) -> u8 {
    if 97 <= b <= 122 {
        (b - 32) as u8
    } else {
        b
    }
}

/// Every hexadecimal digit character has its conventional value: `0`..`9`
/// are 0..9, and `a`..`f` and `A`..`F` alike are 10..15.
pub proof fn lemma_hex_value_meaning(c: char)
    ensures
        '0' <= c <= '9' ==> is_hex_digit(c) && hex_value(c) == (c as u32) - 48,
        'a' <= c <= 'f' ==> is_hex_digit(c) && hex_value(c) == (c as u32) - 87,
        'A' <= c <= 'F' ==> is_hex_digit(c) && hex_value(c) == (c as u32) - 55,
        'a' <= c <= 'f' ==> hex_value(c) == hex_value(((c as u32) - 32) as char),
        (c as u32) < 128 && !('0' <= c <= '9') && !('a' <= c <= 'f') && !('A' <= c <= 'F')
            ==> !is_hex_digit(c),
{
}

/// Decoding the two digits written for a byte gives the byte back, whether the
/// letters are written in lower or upper case.
pub proof fn lemma_hex_digit_roundtrip_any_case(b: u8)
    ensures
        is_hex_digit(upper_byte(hex_digit_byte(b / 16)) as char),
        is_hex_digit(upper_byte(hex_digit_byte(b % 16)) as char),
        byte_value(
            upper_byte(hex_digit_byte(b % 16)) as char,
            upper_byte(hex_digit_byte(b / 16)) as char,
        ) == b,
        byte_value(hex_digit_byte(b % 16) as char, hex_digit_byte(b / 16) as char) == b,
{
}

/// The length header is the first byte times 256 plus the second times 16
/// plus the third, each byte being `16 * high + low` over its two digits.
pub proof fn lemma_program_length_meaning(program: Seq<char>)
    requires
        hex_digits_from(program, 0, 3),
    ensures
        program_length(program) == (16 * hex_value(program[0]) + hex_value(program[1])) * 256 + (16
            * hex_value(program[2]) + hex_value(program[3])) * 16 + 16 * hex_value(program[4])
            + hex_value(program[5]),
        program_length(program) < 65536 + 4096,
{
    assert(is_hex_digit(program[0]) && is_hex_digit(program[1]) && is_hex_digit(program[2]));
    assert(is_hex_digit(program[3]) && is_hex_digit(program[4]) && is_hex_digit(program[5]));
}

} // verus!
