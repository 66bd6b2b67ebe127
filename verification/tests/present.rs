use hex_gradient::codec::MalformedHex;
use hex_gradient::present::{inline_entry, render_hex_color, rgb_label, swatch_line};

#[test]
fn label_lists_channels_in_decimal() {
    assert_eq!(rgb_label((255, 0, 0)), "(255, 0, 0)");
    assert_eq!(rgb_label((0, 0, 0)), "(0, 0, 0)");
    assert_eq!(rgb_label((1, 10, 100)), "(1, 10, 100)");
    assert_eq!(rgb_label((9, 99, 199)), "(9, 99, 199)");
    assert_eq!(rgb_label((105, 110, 200)), "(105, 110, 200)");
}

#[test]
fn label_agrees_with_the_formatter() {
    for value in 0..=255u8 {
        let other = 255 - value;
        assert_eq!(
            rgb_label((value, other, value / 2)),
            format!("({}, {}, {})", value, other, value / 2)
        );
    }
}

#[test]
fn line_joins_with_single_spaces() {
    assert_eq!(swatch_line("#FF0000", "     ", "(255, 0, 0)"), "#FF0000       (255, 0, 0)");
    assert_eq!(swatch_line("a", "b", "c"), "a b c");
    assert_eq!(swatch_line("", "", ""), "  ");
}

#[test]
fn inline_entry_ends_with_a_space() {
    assert_eq!(inline_entry("#FF0000"), "#FF0000 ");
    assert_eq!(inline_entry(""), " ");
}

fn is_foreground_code(code: &str, rgb: (u8, u8, u8)) -> bool {
    let basic = ["30", "31", "32", "33", "34", "35", "36", "37", "90", "91", "92", "93", "94",
        "95", "96", "97"];
    code == format!("38;2;{};{};{}", rgb.0, rgb.1, rgb.2) || basic.contains(&code)
}

fn is_background_code(code: &str, rgb: (u8, u8, u8)) -> bool {
    let basic = ["40", "41", "42", "43", "44", "45", "46", "47", "100", "101", "102", "103",
        "104", "105", "106", "107"];
    code == format!("48;2;{};{};{}", rgb.0, rgb.1, rgb.2) || basic.contains(&code)
}

fn code_around<'a>(painted: &'a str, text: &str) -> &'a str {
    assert!(painted.starts_with("\x1b["));
    let tail = format!("m{}", text);
    assert!(painted.ends_with(&tail));
    &painted[2..painted.len() - tail.len()]
}

#[test]
fn renders_with_and_without_colour() {
    colored::control::set_override(false);
    assert_eq!(
        render_hex_color("#FF0000", false),
        Ok(String::from("#FF0000       (255, 0, 0)"))
    );
    assert_eq!(render_hex_color("#FF0000", true), Ok(String::from("#FF0000 ")));
    assert_eq!(
        render_hex_color("0a141e", false),
        Ok(String::from("0a141e       (10, 20, 30)"))
    );

    colored::control::set_override(true);
    let inline = render_hex_color("#FF0000", true).unwrap();
    assert_ne!(inline, "#FF0000 ");
    assert!(inline.ends_with("\x1b[0m "));
    let painted = &inline[..inline.len() - "\x1b[0m ".len()];
    assert!(is_foreground_code(code_around(painted, "#FF0000"), (255, 0, 0)));

    let line = render_hex_color("#0A141E", false).unwrap();
    let parts: Vec<&str> = line.split("\x1b[0m").collect();
    assert_eq!(parts.len(), 4);
    assert_eq!(parts[3], "");
    assert!(parts[1].starts_with(' ') && parts[2].starts_with(' '));
    let shown = code_around(parts[0], "#0A141E");
    let swatch = code_around(&parts[1][1..], "     ");
    let label = code_around(&parts[2][1..], "(10, 20, 30)");
    assert!(is_foreground_code(shown, (10, 20, 30)));
    assert!(is_background_code(swatch, (10, 20, 30)));
    assert!(is_foreground_code(label, (10, 20, 30)));
    assert!(!is_foreground_code(swatch, (10, 20, 30)));
    assert!(!is_background_code(shown, (10, 20, 30)));
    assert_eq!(shown, label);
    colored::control::unset_override();
}

#[test]
fn render_rejects_malformed_hex() {
    assert_eq!(render_hex_color("#FF00", false), Err(MalformedHex));
    assert_eq!(render_hex_color("#FF00", true), Err(MalformedHex));
    assert_eq!(render_hex_color("nothex", true), Err(MalformedHex));
    assert_eq!(render_hex_color("", false), Err(MalformedHex));
    assert_eq!(render_hex_color("#FF000080", true), Err(MalformedHex));
    assert_eq!(render_hex_color("#FF0000\x1b[0m", false), Err(MalformedHex));
}
