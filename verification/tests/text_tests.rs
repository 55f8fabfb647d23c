use sim_core::names::{find_name, intern_name};
use sim_core::netlist::elaborate::ParamTable;
use sim_core::text::{
    chars_are, chars_of, concat2, decimal_string, is_space_char, lower_char, lowercase_string,
    same_chars, same_text, split_lines, split_tokens, string_of, to_lowercase, trim_slice,
};

fn strings(parts: Vec<&[char]>) -> Vec<String> {
    parts.into_iter().map(string_of).collect()
}

#[test]
fn white_space_is_what_the_standard_library_calls_so() {
    for code in 0u32..0x3100 {
        if let Some(c) = char::from_u32(code) {
            assert_eq!(is_space_char(c), c.is_whitespace(), "{:?}", c);
        }
    }
    assert!(!is_space_char('\u{10ffff}'));
}

#[test]
fn lower_casing_touches_ascii_letters_only() {
    for code in 0u32..0x500 {
        if let Some(c) = char::from_u32(code) {
            assert_eq!(lower_char(c), c.to_ascii_lowercase());
        }
    }
    assert_eq!(lowercase_string("AbC \u{c4}Z9"), "abc \u{c4}z9");
    assert_eq!(to_lowercase(&['Q', 'q', '1']), vec!['q', 'q', '1']);
}

#[test]
fn characters_and_strings_go_both_ways() {
    let text = "R1 \u{4e2d}\u{6587} 1k\n";
    let chars = chars_of(text);
    assert_eq!(chars.len(), 9);
    assert_eq!(string_of(&chars), text);
    assert_eq!(string_of(&[]), "");
    assert_eq!(concat2("ab", "cd"), "abcd");
}

#[test]
fn texts_are_compared_by_their_characters() {
    assert!(same_text("abc", "abc"));
    assert!(!same_text("abc", "abd"));
    assert!(!same_text("abc", "ab"));
    assert!(same_text("", ""));
    assert!(same_chars(&['a'], &['a']));
    assert!(!same_chars(&['a'], &['A']));
    assert!(chars_are(&['.', 'o', 'p'], ".op"));
    assert!(!chars_are(&['.', 'o'], ".op"));
}

#[test]
fn trimming_takes_white_space_off_both_ends() {
    for text in ["", "   ", "a", "  a b  ", "\t\u{a0}x\r\n", "x  ", "  x"] {
        let chars = chars_of(text);
        assert_eq!(string_of(trim_slice(&chars)), text.trim());
    }
}

#[test]
fn tokens_are_the_words_of_a_text() {
    for text in ["", "   ", "a", "  a b  ", "R1\tin  out\u{3000}1k ", "x=1 y = 2"] {
        let chars = chars_of(text);
        let expected: Vec<String> = text.split_whitespace().map(String::from).collect();
        assert_eq!(strings(split_tokens(&chars)), expected);
    }
}

#[test]
fn lines_end_at_line_feeds() {
    for text in ["", "\n", "a", "a\n", "a\nb", "a\r\nb\r\n", "\n\n", "a\n\nb\n", "\r\n", "a\rb\n"] {
        let chars = chars_of(text);
        let expected: Vec<String> = text.lines().map(String::from).collect();
        assert_eq!(strings(split_lines(&chars)), expected, "{:?}", text);
    }
    let chars = chars_of("a\nb\r");
    assert_eq!(strings(split_lines(&chars)), vec!["a", "b\r"]);
}

#[test]
fn numerals_have_no_leading_zeros() {
    assert_eq!(decimal_string(0), "0");
    assert_eq!(decimal_string(7), "7");
    assert_eq!(decimal_string(10), "10");
    assert_eq!(decimal_string(12345), "12345");
    assert_eq!(decimal_string(usize::MAX), usize::MAX.to_string());
}

#[test]
fn names_are_known_by_their_position() {
    let mut names = vec!["a".to_string(), "b".to_string()];
    assert_eq!(find_name(&names, "b"), Some(1));
    assert_eq!(find_name(&names, "c"), None);
    assert_eq!(intern_name(&mut names, "a"), (0, false));
    assert_eq!(intern_name(&mut names, "c"), (2, true));
    assert_eq!(intern_name(&mut names, "c"), (2, false));
    assert_eq!(names, vec!["a", "b", "c"]);
}

#[test]
fn later_definitions_hide_earlier_ones() {
    let mut table = ParamTable::new();
    assert_eq!(table.get("w"), None);
    table.insert("w".to_string(), "1u".to_string());
    table.insert("l".to_string(), "2u".to_string());
    table.insert("w".to_string(), "3u".to_string());
    assert_eq!(table.get("w").as_deref(), Some("3u"));
    assert_eq!(table.get("l").as_deref(), Some("2u"));
    assert_eq!(table.get("W"), None);
}
