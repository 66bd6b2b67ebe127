//! Conversion between `#RRGGBB` strings and 8-bit colour triples.

use vstd::prelude::*;

verus! {

/// Three channels of one colour, in the order the colour space names them
/// (red, green, blue for RGB).
pub type Color<T> = (T, T, T);

/// The input is not exactly six hexadecimal digits with an optional leading
/// `#`.
#[derive(Clone, Copy, Debug, PartialEq, Eq, Structural)]
pub struct MalformedHex;

/// Whether `c` is one of `0-9`, `a-f`, `A-F`.
pub open spec fn is_hex_digit(c: char) -> bool {
    ||| '0' <= c <= '9'
    ||| 'a' <= c <= 'f'
    ||| 'A' <= c <= 'F'
}

/// The number that a hexadecimal digit stands for.
pub open spec fn hex_digit_value(c: char) -> int
    recommends
        is_hex_digit(c),
{
    if '0' <= c <= '9' {
        c as int - '0' as int
    } else if 'a' <= c <= 'f' {
        c as int - 'a' as int + 10
    } else {
        c as int - 'A' as int + 10
    }
}

/// Reads one hexadecimal digit; `None` for any other character.
pub fn parse_hex_digit(c: char) -> (result: Option<u8>)
    ensures
        result is Some <==> is_hex_digit(c),
        result is Some ==> result.unwrap() as int == hex_digit_value(c),
{
    let code: u32 = c as u32;
    if 48 <= code && code <= 57 {
        Some((code - 48) as u8)
    } else if 97 <= code && code <= 102 {
        Some((code - 97 + 10) as u8)
    } else if 65 <= code && code <= 70 {
        Some((code - 65 + 10) as u8)
    } else {
        None
    }
}

/// The digits of a colour string: the input without its leading `#`, if it
/// has one. Only a single `#` is removed.
pub open spec fn hex_digits(s: Seq<char>) -> Seq<char> {
    if s.len() > 0 && s[0] == '#' {
        s.skip(1)
    } else {
        s
    }
}

/// The value of the two-digit number that starts at `at`.
pub open spec fn channel_value(digits: Seq<char>, at: int) -> int
    recommends
        0 <= at,
        at + 1 < digits.len(),
{
    16 * hex_digit_value(digits[at]) + hex_digit_value(digits[at + 1])
}

/// Whether `s` spells a colour: after the optional `#` come exactly six
/// characters, all of them hexadecimal digits. A shorthand of three digits,
/// a fourth pair for an alpha channel and anything else that follows the
/// sixth digit make the string malformed.
pub open spec fn is_hex_color(s: Seq<char>) -> bool {
    let digits = hex_digits(s);
    &&& digits.len() == 6
    &&& forall|i: int| 0 <= i < 6 ==> is_hex_digit(#[trigger] digits[i])
}

/// The colour that `s` spells: red from the first two digits, green from the
/// next two, blue from the last two.
pub open spec fn decoded_rgb(s: Seq<char>) -> Color<u8>
    recommends
        is_hex_color(s),
{
    let digits = hex_digits(s);
    (
        channel_value(digits, 0) as u8,
        channel_value(digits, 2) as u8,
        channel_value(digits, 4) as u8,
    )
}

/// Reads the two digits of one channel, most significant first.
fn parse_channel(hex: &str, at: usize) -> (result: Option<u8>)
    requires
        at + 2 <= hex@.len() <= usize::MAX,
    ensures
        result is Some <==> is_hex_digit(hex@[at as int]) && is_hex_digit(hex@[at + 1]),
        result is Some ==> result.unwrap() as int == channel_value(hex@, at as int),
{
    match parse_hex_digit(hex.get_char(at)) {
        Some(high) => match parse_hex_digit(hex.get_char(at + 1)) {
            Some(low) => Some(high * 16 + low),
            None => None,
        },
        None => None,
    }
}

/// Decodes a colour written as six hexadecimal digits, with or without a
/// leading `#`.
///
/// Fails exactly when what is left after the optional `#` is not six
/// characters long or holds a character that is not a hexadecimal digit.
/// Upper and lower case digits are both read.
pub fn hex_to_rgb(hex: &str) -> (result: Result<Color<u8>, MalformedHex>)
    ensures
        result is Ok <==> is_hex_color(hex@),
        result is Ok ==> result.unwrap() == decoded_rgb(hex@),
{
    let len: usize = hex.unicode_len();
    let start: usize = if len > 0 && hex.get_char(0) == '#' {
        1
    } else {
        0
    };
    if len - start != 6 {
        return Err(MalformedHex);
    }
    let ghost digits = hex_digits(hex@);
    assert forall|i: int| 0 <= i < 6 implies #[trigger] digits[i] == hex@[start + i] by {}
    let red = parse_channel(hex, start);
    let green = parse_channel(hex, start + 2);
    let blue = parse_channel(hex, start + 4);
    match (red, green, blue) {
        (Some(r), Some(g), Some(b)) => Ok((r, g, b)),
        _ => {
            assert(!is_hex_color(hex@)) by {
                assert(digits[0] == hex@[start + 0] && digits[1] == hex@[start + 1]);
                assert(digits[2] == hex@[start + 2] && digits[3] == hex@[start + 3]);
                assert(digits[4] == hex@[start + 4] && digits[5] == hex@[start + 5]);
            }
            Err(MalformedHex)
        },
    }
}

/// The upper-case hexadecimal digit for a value below sixteen.
pub open spec fn upper_hex_digit(value: int) -> char
    recommends
        0 <= value < 16,
{
    if value < 10 {
        ('0' as int + value) as char
    } else {
        ('A' as int + value - 10) as char
    }
}

/// The canonical spelling of a colour: `#`, then two upper-case digits per
/// channel, zero-padded.
pub open spec fn encoded_hex(rgb: Color<u8>) -> Seq<char> {
    seq![
        '#',
        upper_hex_digit(rgb.0 as int / 16),
        upper_hex_digit(rgb.0 as int % 16),
        upper_hex_digit(rgb.1 as int / 16),
        upper_hex_digit(rgb.1 as int % 16),
        upper_hex_digit(rgb.2 as int / 16),
        upper_hex_digit(rgb.2 as int % 16),
    ]
}

/// `String::push` of the standard library appends the character to the end
/// of the string and leaves what was there before unchanged.
pub assume_specification[ String::push ](text: &mut String, ch: char)
    ensures
        final(text)@ == old(text)@.push(ch),
;

/// Writes one value below sixteen as an upper-case hexadecimal digit.
fn format_hex_digit(value: u8) -> (result: char)
    requires
        value < 16,
    ensures
        result == upper_hex_digit(value as int),
{
    if value < 10 {
        (48 + value) as char
    } else {
        (55 + value) as char
    }
}

/// Appends the two digits of one channel.
fn push_channel(text: &mut String, channel: u8)
    ensures
        final(text)@ == old(text)@.push(upper_hex_digit(channel as int / 16)).push(
            upper_hex_digit(channel as int % 16),
        ),
{
    text.push(format_hex_digit(channel / 16));
    text.push(format_hex_digit(channel % 16));
}

/// Encodes a colour as `#RRGGBB` with upper-case digits.
pub fn rgb_to_hex(rgb: Color<u8>) -> (result: String)
    ensures
        result@ == encoded_hex(rgb),
{
    let mut text = String::new();
    text.push('#');
    push_channel(&mut text, rgb.0);
    push_channel(&mut text, rgb.1);
    push_channel(&mut text, rgb.2);
    text
}

/// A hexadecimal digit in upper case; other characters are left as they are.
pub open spec fn to_upper_hex(c: char) -> char {
    if 'a' <= c <= 'f' {
        (c as int - 'a' as int + 'A' as int) as char
    } else {
        c
    }
}

/// The canonical spelling of a colour string: `#` followed by its digits in
/// upper case.
pub open spec fn canonical_hex(s: Seq<char>) -> Seq<char>
    recommends
        is_hex_color(s),
{
    seq!['#'] + hex_digits(s).map_values(|c: char| to_upper_hex(c))
}

/// Writing the value of a hexadecimal digit gives the digit in upper case.
proof fn lemma_digit_round_trip(c: char)
    requires
        is_hex_digit(c),
    ensures
        0 <= hex_digit_value(c) < 16,
        upper_hex_digit(hex_digit_value(c)) == to_upper_hex(c),
{
}

/// Reading a written digit gives its value.
proof fn lemma_value_round_trip(value: int)
    requires
        0 <= value < 16,
    ensures
        is_hex_digit(upper_hex_digit(value)),
        hex_digit_value(upper_hex_digit(value)) == value,
        to_upper_hex(upper_hex_digit(value)) == upper_hex_digit(value),
{
}

/// Decoding a colour string and encoding the result gives the canonical
/// spelling of the input: a leading `#` and the same six digits in upper
/// case.
pub proof fn lemma_encode_decode(s: Seq<char>)
    requires
        is_hex_color(s),
    ensures
        encoded_hex(decoded_rgb(s)) == canonical_hex(s),
{
    let digits = hex_digits(s);
    assert forall|i: int| 0 <= i < 6 implies 0 <= hex_digit_value(#[trigger] digits[i]) < 16
        && upper_hex_digit(hex_digit_value(digits[i])) == to_upper_hex(digits[i]) by {
        lemma_digit_round_trip(digits[i]);
    }
    assert(encoded_hex(decoded_rgb(s)) =~= canonical_hex(s));
}

/// Encoding a colour gives a string that decodes to the same colour, and
/// that is its own canonical spelling.
pub proof fn lemma_decode_encode(rgb: Color<u8>)
    ensures
        is_hex_color(encoded_hex(rgb)),
        decoded_rgb(encoded_hex(rgb)) == rgb,
        canonical_hex(encoded_hex(rgb)) == encoded_hex(rgb),
{
    let text = encoded_hex(rgb);
    let digits = hex_digits(text);
    assert(digits =~= text.skip(1));
    lemma_value_round_trip(rgb.0 as int / 16);
    lemma_value_round_trip(rgb.0 as int % 16);
    lemma_value_round_trip(rgb.1 as int / 16);
    lemma_value_round_trip(rgb.1 as int % 16);
    lemma_value_round_trip(rgb.2 as int / 16);
    lemma_value_round_trip(rgb.2 as int % 16);
    assert(canonical_hex(text) =~= text);
}

} // verus!
