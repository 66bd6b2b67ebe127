//! The text that shows one sample of a gradient on a terminal: its hex
//! string in its own colour, alone or followed by a swatch and its channels
//! in decimal.

use crate::codec::{
    decoded_rgb, hex_digits, hex_to_rgb, is_hex_color, is_hex_digit, Color, MalformedHex,
};
use colored::Colorize;
use vstd::prelude::*;
use vstd::string::StringExecFns;

verus! {

/// The decimal digit for a value below ten.
pub open spec fn decimal_digit(value: int) -> char
    recommends
        0 <= value < 10,
{
    ('0' as int + value) as char
}

/// A channel in decimal, without padding.
pub open spec fn decimal_text(channel: u8) -> Seq<char> {
    if channel < 10 {
        seq![decimal_digit(channel as int)]
    } else if channel < 100 {
        seq![decimal_digit(channel as int / 10), decimal_digit(channel as int % 10)]
    } else {
        seq![
            decimal_digit(channel as int / 100),
            decimal_digit(channel as int / 10 % 10),
            decimal_digit(channel as int % 10),
        ]
    }
}

/// The channels of a colour as `(r, g, b)`.
pub open spec fn label_text(rgb: Color<u8>) -> Seq<char> {
    seq!['('] + decimal_text(rgb.0) + seq![',', ' '] + decimal_text(rgb.1) + seq![',', ' ']
        + decimal_text(rgb.2) + seq![')']
}

/// The blank block that carries the background colour: five spaces.
pub open spec fn swatch_text() -> Seq<char> {
    seq![' ', ' ', ' ', ' ', ' ']
}

/// One sample on a line of its own: the hex string, the swatch and the
/// label, a space between each.
pub open spec fn line_text(hex: Seq<char>, swatch: Seq<char>, label: Seq<char>) -> Seq<char> {
    hex + seq![' '] + swatch + seq![' '] + label
}

/// One sample among others on a line: the hex string and a space.
pub open spec fn inline_text(hex: Seq<char>) -> Seq<char> {
    hex + seq![' ']
}

/// The sequence that ends colouring on a terminal: `ESC [ 0 m`.
pub open spec fn reset_text() -> Seq<char> {
    seq!['\x1b', '[', '0', 'm']
}

/// The sequence that starts colouring with `code`: `ESC [`, the code, `m`.
pub open spec fn escape_text(code: Seq<char>) -> Seq<char> {
    seq!['\x1b', '['] + code + seq!['m']
}

/// The code of a 24-bit colour: `38;2;r;g;b` for the foreground, where
/// `plane` is `3`, and `48;2;r;g;b` for the background, where it is `4`.
pub open spec fn truecolor_code(plane: char, rgb: Color<u8>) -> Seq<char> {
    seq![plane, '8', ';', '2', ';'] + decimal_text(rgb.0) + seq![';'] + decimal_text(rgb.1)
        + seq![';'] + decimal_text(rgb.2)
}

/// Whether `code` sets the foreground to `rgb`, or to one of the sixteen
/// basic colours (30 to 37, 90 to 97) on a terminal without 24-bit colour.
pub open spec fn is_foreground_code(code: Seq<char>, rgb: Color<u8>) -> bool {
    ||| code == truecolor_code('3', rgb)
    ||| exists|basic: u8|
        (30 <= basic <= 37 || 90 <= basic <= 97) && code == #[trigger] decimal_text(basic)
}

/// Whether `code` sets the background to `rgb`, or to one of the sixteen
/// basic colours (40 to 47, 100 to 107) on a terminal without 24-bit colour.
pub open spec fn is_background_code(code: Seq<char>, rgb: Color<u8>) -> bool {
    ||| code == truecolor_code('4', rgb)
    ||| exists|basic: u8|
        (40 <= basic <= 47 || 100 <= basic <= 107) && code == #[trigger] decimal_text(basic)
}

/// Whether `painted` is `text` coloured by `code`, or left bare where
/// colouring is switched off: the text alone, the text and the reset
/// sequence, or the text between the escape sequence of `code` and the
/// reset sequence.
pub open spec fn is_painted(painted: Seq<char>, text: Seq<char>, code: Seq<char>) -> bool {
    ||| painted == text
    ||| painted == text + reset_text()
    ||| painted == escape_text(code) + text + reset_text()
}

/// Whether `painted` is `text` with `rgb` as its foreground colour, as far
/// as the terminal takes colour.
pub open spec fn is_foreground_paint(painted: Seq<char>, text: Seq<char>, rgb: Color<u8>) -> bool {
    exists|code: Seq<char>| is_foreground_code(code, rgb) && #[trigger] is_painted(painted, text, code)
}

/// Whether `painted` is `text` with `rgb` as its background colour, as far
/// as the terminal takes colour.
pub open spec fn is_background_paint(painted: Seq<char>, text: Seq<char>, rgb: Color<u8>) -> bool {
    exists|code: Seq<char>| is_background_code(code, rgb) && #[trigger] is_painted(painted, text, code)
}

/// Whether `text` is free of the escape character that starts a terminal
/// control sequence.
pub open spec fn is_plain_text(text: Seq<char>) -> bool {
    forall|i: int| 0 <= i < text.len() ==> text[i] != '\x1b'
}

/// Appends a channel in decimal.
fn push_decimal(text: &mut String, channel: u8)
    ensures
        final(text)@ == old(text)@ + decimal_text(channel),
{
    if channel >= 100 {
        text.push((48 + channel / 100) as char);
    }
    if channel >= 10 {
        text.push((48 + channel / 10 % 10) as char);
    }
    text.push((48 + channel % 10) as char);
}

/// Writes the channels of a colour as `(r, g, b)`, in decimal.
pub fn rgb_label(rgb: Color<u8>) -> (result: String)
    ensures
        result@ == label_text(rgb),
{
    let mut text = String::new();
    text.push('(');
    push_decimal(&mut text, rgb.0);
    text.push(',');
    text.push(' ');
    push_decimal(&mut text, rgb.1);
    text.push(',');
    text.push(' ');
    push_decimal(&mut text, rgb.2);
    text.push(')');
    text
}

/// Lays out one sample on a line of its own.
pub fn swatch_line(hex: &str, swatch: &str, label: &str) -> (result: String)
    ensures
        result@ == line_text(hex@, swatch@, label@),
{
    let mut text = String::from_str(hex);
    text.push(' ');
    text.append(swatch);
    text.push(' ');
    text.append(label);
    text
}

/// Lays out one sample that shares its line with others.
pub fn inline_entry(hex: &str) -> (result: String)
    ensures
        result@ == inline_text(hex@),
{
    let mut text = String::from_str(hex);
    text.push(' ');
    text
}

/// `Colorize::truecolor` of `colored`, written out through `Display`: the
/// text with `rgb` as its foreground colour. Whether colour is written, and
/// as a 24-bit or as the closest basic colour, depends on the environment.
/// For a text without an escape character the result is the text alone, the
/// text and the reset sequence, or the text between the escape sequence of
/// a foreground code for `rgb` and the reset sequence.
#[verifier::external_body]
fn paint(text: &str, rgb: Color<u8>) -> (painted: String)
    ensures
        is_plain_text(text@) ==> is_foreground_paint(painted@, text@, rgb),
{
    text.truecolor(rgb.0, rgb.1, rgb.2).to_string()
}

/// `Colorize::on_truecolor` of `colored`, written out through `Display`:
/// the text with `rgb` as its background colour. Whether colour is written,
/// and as a 24-bit or as the closest basic colour, depends on the
/// environment. For a text without an escape character the result is the
/// text alone, the text and the reset sequence, or the text between the
/// escape sequence of a background code for `rgb` and the reset sequence.
#[verifier::external_body]
fn paint_background(text: &str, rgb: Color<u8>) -> (painted: String)
    ensures
        is_plain_text(text@) ==> is_background_paint(painted@, text@, rgb),
{
    text.on_truecolor(rgb.0, rgb.1, rgb.2).to_string()
}

/// Whether `line` shows the colour string `hex`: the string with the colour
/// it spells as foreground, alone with its space when `inline`, else
/// followed by the swatch with that colour as background and by the label
/// of the colour with it as foreground.
pub open spec fn is_rendering(line: Seq<char>, hex: Seq<char>, inline: bool) -> bool {
    let rgb = decoded_rgb(hex);
    if inline {
        exists|shown: Seq<char>|
            {
                &&& #[trigger] is_foreground_paint(shown, hex, rgb)
                &&& line == inline_text(shown)
            }
    } else {
        exists|shown: Seq<char>, swatch: Seq<char>, label: Seq<char>|
            {
                &&& is_foreground_paint(shown, hex, rgb)
                &&& is_background_paint(swatch, swatch_text(), rgb)
                &&& is_foreground_paint(label, label_text(rgb), rgb)
                &&& line == #[trigger] line_text(shown, swatch, label)
            }
    }
}

/// A colour string holds `#` and hexadecimal digits only.
proof fn lemma_hex_color_is_plain(hex: Seq<char>)
    requires
        is_hex_color(hex),
    ensures
        is_plain_text(hex),
{
    let digits = hex_digits(hex);
    assert forall|i: int| 0 <= i < hex.len() implies hex[i] != '\x1b' by {
        if hex[0] == '#' {
            if i > 0 {
                assert(hex[i] == digits[i - 1]);
                assert(is_hex_digit(digits[i - 1]));
            }
        } else {
            assert(is_hex_digit(digits[i]));
        }
    }
}

/// A label holds digits and punctuation only.
proof fn lemma_label_is_plain(rgb: Color<u8>)
    ensures
        is_plain_text(label_text(rgb)),
{
    let plain = |c: char| c != '\x1b';
    assert(decimal_text(rgb.0).all(plain));
    assert(decimal_text(rgb.1).all(plain));
    assert(decimal_text(rgb.2).all(plain));
    assert(label_text(rgb).all(plain));
}

/// Renders one sample of a gradient, given as its hex string, for the
/// terminal.
///
/// The string is painted with the colour it spells as foreground. When
/// `inline`, the result is the painted string and a space. Otherwise the
/// painted string is followed by a swatch, five spaces with the colour as
/// background, and by the channels in decimal, painted like the string. No
/// line end is added. Where the environment switches colour off, the parts
/// stay bare; without 24-bit colour the closest basic colour is taken.
///
/// Fails exactly when the string does not spell a colour.
pub fn render_hex_color(hex: &str, inline: bool) -> (result: Result<String, MalformedHex>)
    ensures
        result is Ok <==> is_hex_color(hex@),
        result is Ok ==> is_rendering(result.unwrap()@, hex@, inline),
{
    let rgb = match hex_to_rgb(hex) {
        Ok(rgb) => rgb,
        Err(error) => {
            return Err(error);
        },
    };
    proof {
        lemma_hex_color_is_plain(hex@);
    }
    let shown = paint(hex, rgb);
    if inline {
        return Ok(inline_entry(shown.as_str()));
    }
    let channels = rgb_label(rgb);
    proof {
        lemma_label_is_plain(rgb);
        reveal_strlit("     ");
        assert("     "@ =~= swatch_text());
    }
    let label = paint(channels.as_str(), rgb);
    let swatch = paint_background("     ", rgb);
    Ok(swatch_line(shown.as_str(), swatch.as_str(), label.as_str()))
}

} // verus!
