use pastel_todo::text::{
    chars_of, decimal_chars, eq_ignore_ascii_case, join_from, parse_number, pop_char, same_text,
    split_words, string_of, to_ascii_lower, trim, whitespace,
};

fn chars(s: &str) -> Vec<char> {
    s.chars().collect()
}

fn text(v: &[char]) -> String {
    v.iter().collect()
}

#[test]
fn chars_and_strings_convert_both_ways() {
    assert_eq!(chars_of("héllo"), chars("héllo"));
    assert_eq!(string_of(&chars("wörld")), "wörld");
    assert_eq!(chars_of(""), Vec::<char>::new());
}

#[test]
fn same_text_compares_exactly() {
    assert!(same_text("inbox", "inbox"));
    assert!(!same_text("inbox", "Inbox"));
    assert!(!same_text("inbox", "inbox "));
    assert!(same_text("", ""));
}

#[test]
fn whitespace_is_that_of_unicode() {
    for c in [' ', '\t', '\n', '\r', '\u{0b}', '\u{0c}', '\u{85}', '\u{a0}', '\u{1680}', '\u{2000}',
        '\u{200a}', '\u{2028}', '\u{2029}', '\u{202f}', '\u{205f}', '\u{3000}']
    {
        assert!(whitespace(c));
    }
    for c in ['a', '0', '\u{200b}', '\u{180e}', '\u{feff}', '_', '\u{08}', '\u{0e}'] {
        assert!(!whitespace(c));
    }
}

#[test]
fn whitespace_agrees_with_the_standard_library() {
    for code in 0..0x11000u32 {
        if let Some(c) = char::from_u32(code) {
            assert_eq!(whitespace(c), c.is_whitespace());
        }
    }
}

#[test]
fn trim_drops_white_space_at_both_ends() {
    assert_eq!(text(&trim(&chars("  buy milk \t\n"))), "buy milk");
    assert_eq!(text(&trim(&chars("buy milk"))), "buy milk");
    assert_eq!(text(&trim(&chars(" \u{3000} "))), "");
    assert_eq!(text(&trim(&chars(""))), "");
    assert_eq!(text(&trim(&chars(" a  b "))), "a  b");
}

#[test]
fn split_words_drops_all_white_space() {
    let words: Vec<String> = split_words(&chars("  folder   my  stuff ")).iter().map(|w| text(w)).collect();
    assert_eq!(words, vec!["folder", "my", "stuff"]);
    assert!(split_words(&chars("   ")).is_empty());
    assert!(split_words(&chars("")).is_empty());
    let words: Vec<String> = split_words(&chars("one")).iter().map(|w| text(w)).collect();
    assert_eq!(words, vec!["one"]);
}

#[test]
fn join_from_puts_single_spaces() {
    let words = split_words(&chars("folder   my \t stuff"));
    assert_eq!(text(&join_from(&words, 1)), "my stuff");
    assert_eq!(text(&join_from(&words, 0)), "folder my stuff");
    assert_eq!(text(&join_from(&words, 2)), "stuff");
    assert_eq!(text(&join_from(&words, 3)), "");
    assert_eq!(text(&join_from(&words, 9)), "");
}

#[test]
fn parse_number_reads_decimal_numerals() {
    assert_eq!(parse_number(&chars("1")), Some(1));
    assert_eq!(parse_number(&chars("42")), Some(42));
    assert_eq!(parse_number(&chars("007")), Some(7));
    assert_eq!(parse_number(&chars("0")), Some(0));
    assert_eq!(parse_number(&chars("+5")), Some(5));
    assert_eq!(parse_number(&chars(&usize::MAX.to_string())), Some(usize::MAX));
}

#[test]
fn parse_number_rejects_everything_else() {
    for s in ["", "+", "-1", "1 2", " 1", "1 ", "1a", "a", "1.5", "１", "++1", "1_000"] {
        assert_eq!(parse_number(&chars(s)), None);
    }
    assert_eq!(parse_number(&chars("18446744073709551616")), None);
    assert_eq!(parse_number(&chars("99999999999999999999999999")), None);
}

#[test]
fn parse_number_agrees_with_the_standard_library() {
    for s in ["0", "12", "+12", "-12", "", "+", "00012", "4294967296", "18446744073709551615",
        "18446744073709551616", "12x", "x12", "1 2"]
    {
        assert_eq!(parse_number(&chars(s)), s.parse::<usize>().ok());
    }
}

#[test]
fn decimal_chars_writes_numerals() {
    assert_eq!(text(&decimal_chars(0)), "0");
    assert_eq!(text(&decimal_chars(7)), "7");
    assert_eq!(text(&decimal_chars(10)), "10");
    assert_eq!(text(&decimal_chars(1234)), "1234");
    assert_eq!(text(&decimal_chars(usize::MAX)), usize::MAX.to_string());
}

#[test]
fn ascii_case_is_folded_for_ascii_letters_only() {
    assert_eq!(to_ascii_lower('A'), 'a');
    assert_eq!(to_ascii_lower('Z'), 'z');
    assert_eq!(to_ascii_lower('a'), 'a');
    assert_eq!(to_ascii_lower('@'), '@');
    assert_eq!(to_ascii_lower('['), '[');
    assert_eq!(to_ascii_lower('É'), 'É');
    assert!(eq_ignore_ascii_case(&chars("FoLdEr"), &chars("folder")));
    assert!(!eq_ignore_ascii_case(&chars("folder"), &chars("folders")));
    assert!(!eq_ignore_ascii_case(&chars("É"), &chars("é")));
    assert!(eq_ignore_ascii_case(&chars(""), &chars("")));
}

#[test]
fn pop_char_takes_the_last_character() {
    let mut s = "héé".to_string();
    pop_char(&mut s);
    assert_eq!(s, "hé");
    let mut s = String::new();
    pop_char(&mut s);
    assert_eq!(s, "");
}
