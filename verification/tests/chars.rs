use ssh_probe::chars::{holds, is_whitespace, key_end, line_end, spells, to_chars, trim_bounds};

fn chars_of(text: &str) -> Vec<char> {
    text.chars().collect()
}

fn window(chars: &[char], bounds: (usize, usize)) -> String {
    chars[bounds.0..bounds.1].iter().collect()
}

#[test]
fn whitespace_is_what_the_standard_library_calls_whitespace() {
    let mut code: u32 = 0;
    while code <= 0x10FFFF {
        if let Some(c) = char::from_u32(code) {
            assert_eq!(is_whitespace(c), c.is_whitespace(), "U+{:04X}", code);
        }
        code += 1;
    }
}

#[test]
fn whitespace_holds_the_usual_characters() {
    assert!(is_whitespace(' '));
    assert!(is_whitespace('\t'));
    assert!(is_whitespace('\n'));
    assert!(is_whitespace('\r'));
    assert!(is_whitespace('\u{a0}'));
    assert!(is_whitespace('\u{3000}'));
    assert!(!is_whitespace('a'));
    assert!(!is_whitespace('='));
    assert!(!is_whitespace('#'));
    assert!(!is_whitespace('\u{200b}'));
}

#[test]
fn to_chars_keeps_every_character_in_order() {
    assert_eq!(to_chars("a\u{e9}\u{2192}z"), vec!['a', '\u{e9}', '\u{2192}', 'z']);
    assert_eq!(to_chars(""), Vec::<char>::new());
}

#[test]
fn trim_bounds_cuts_white_space_at_both_ends() {
    let chars = chars_of("  a b \t");
    let end: usize = chars.len();
    assert_eq!(trim_bounds(&chars, 0, end), (2, 5));
    assert_eq!(window(&chars, trim_bounds(&chars, 0, end)), "a b");
}

#[test]
fn trim_bounds_of_white_space_is_empty() {
    let chars = chars_of(" \t\r ");
    let bounds = trim_bounds(&chars, 0, 4);
    assert_eq!(bounds.0, bounds.1);
    let none = chars_of("");
    assert_eq!(trim_bounds(&none, 0, 0), (0, 0));
}

#[test]
fn trim_bounds_stays_inside_the_window() {
    let chars = chars_of("xx  key  yy");
    assert_eq!(trim_bounds(&chars, 2, 9), (4, 7));
    assert_eq!(trim_bounds(&chars, 0, 11), (0, 11));
}

#[test]
fn trim_bounds_agrees_with_trim() {
    let samples = [
        "",
        " ",
        "a",
        " a",
        "a ",
        "\u{3000}x\u{a0}",
        "\t\tHost  a\r",
        "  \u{2028} \u{85}",
        "a \u{200b} ",
    ];
    for text in samples {
        let chars = chars_of(text);
        let end: usize = chars.len();
        assert_eq!(window(&chars, trim_bounds(&chars, 0, end)), text.trim(), "{:?}", text);
    }
}

#[test]
fn line_end_finds_the_next_line_feed() {
    let chars = chars_of("ab\ncd\n\nef");
    assert_eq!(line_end(&chars, 0), 2);
    assert_eq!(line_end(&chars, 2), 2);
    assert_eq!(line_end(&chars, 3), 5);
    assert_eq!(line_end(&chars, 6), 6);
    assert_eq!(line_end(&chars, 7), 9);
    assert_eq!(line_end(&chars, 9), 9);
}

#[test]
fn line_end_does_not_stop_at_a_carriage_return() {
    let chars = chars_of("a\rb\r\nc");
    assert_eq!(line_end(&chars, 0), 4);
}

#[test]
fn key_end_stops_at_white_space_or_equals() {
    let chars = chars_of("User name=with=equals");
    assert_eq!(key_end(&chars, 0, 21), 4);
    assert_eq!(key_end(&chars, 5, 21), 9);
    let chars = chars_of("Port=22");
    assert_eq!(key_end(&chars, 0, 7), 4);
    let chars = chars_of("a\u{a0}b");
    assert_eq!(key_end(&chars, 0, 3), 1);
}

#[test]
fn key_end_without_separator_is_the_end_of_the_window() {
    let chars = chars_of("garbage here");
    assert_eq!(key_end(&chars, 0, 7), 7);
    assert_eq!(key_end(&chars, 3, 3), 3);
}

#[test]
fn holds_looks_only_inside_the_window() {
    let chars = chars_of("a*b*c");
    assert!(holds(&chars, 0, 5, '*'));
    assert!(holds(&chars, 1, 2, '*'));
    assert!(!holds(&chars, 0, 1, '*'));
    assert!(!holds(&chars, 2, 3, '*'));
    assert!(!holds(&chars, 4, 5, '*'));
    assert!(!holds(&chars, 2, 2, '*'));
}

#[test]
fn spells_ignores_the_case_of_ascii_letters() {
    let chars = chars_of("HostName hOsT host");
    assert!(spells(&chars, 0, 8, "hostname"));
    assert!(spells(&chars, 9, 13, "host"));
    assert!(spells(&chars, 14, 18, "host"));
    assert!(!spells(&chars, 0, 8, "host"));
    assert!(!spells(&chars, 0, 4, "hostname"));
    assert!(!spells(&chars, 0, 4, "hosT"));
}

#[test]
fn spells_folds_nothing_but_ascii_letters() {
    let kelvin = chars_of("\u{212a}");
    assert!(!spells(&kelvin, 0, 1, "k"));
    let dotted = chars_of("\u{130}d");
    assert!(!spells(&dotted, 0, 2, "id"));
    let accent = chars_of("\u{c9}");
    assert!(!spells(&accent, 0, 1, "\u{e9}"));
    assert!(spells(&chars_of("\u{e9}"), 0, 1, "\u{e9}"));
    let marks = chars_of("@[`{");
    assert!(spells(&marks, 0, 4, "@[`{"));
}
