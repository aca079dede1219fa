use h2m_favorites::text::{contains_chars, chars_of, push_decimal, same_text, to_ascii_lower};
use h2m_favorites::{lowercase_vec, parse_hostname};

#[test]
fn hostname_loses_color_codes_and_case() {
    assert_eq!(parse_hostname("^1Red^7Team"), "redteam");
}

#[test]
fn hostname_marker_consumes_any_character() {
    assert_eq!(parse_hostname("^^1A"), "1a");
    assert_eq!(parse_hostname("^AB"), "b");
    assert_eq!(parse_hostname("^ x"), "x");
}

#[test]
fn hostname_marker_at_the_end_is_dropped() {
    assert_eq!(parse_hostname("Name^"), "name");
    assert_eq!(parse_hostname("^"), "");
    assert_eq!(parse_hostname(""), "");
}

#[test]
fn hostname_lowercases_ascii_only() {
    assert_eq!(parse_hostname("ÄBC-Z[@"), "Äbc-z[@");
}

#[test]
fn ascii_lower_touches_letters_only() {
    assert_eq!(to_ascii_lower('A'), 'a');
    assert_eq!(to_ascii_lower('Z'), 'z');
    assert_eq!(to_ascii_lower('@'), '@');
    assert_eq!(to_ascii_lower('['), '[');
    assert_eq!(to_ascii_lower('q'), 'q');
    assert_eq!(to_ascii_lower('É'), 'É');
}

#[test]
fn search_words_are_trimmed_and_lowercased() {
    let words = vec![String::from("  HeLLo "), String::from("TDM\n"), String::from("ÄÖ")];
    assert_eq!(lowercase_vec(&words), vec!["hello", "tdm", "äö"]);
    assert_eq!(lowercase_vec(&[]), Vec::<String>::new());
}

#[test]
fn substring_search_on_characters() {
    let hay = chars_of("snipers only");
    assert!(contains_chars(&hay, &chars_of("only")));
    assert!(contains_chars(&hay, &chars_of("snipers only")));
    assert!(contains_chars(&hay, &chars_of("")));
    assert!(contains_chars(&chars_of(""), &chars_of("")));
    assert!(!contains_chars(&hay, &chars_of("onlyx")));
    assert!(!contains_chars(&hay, &chars_of("snipers  only")));
    assert!(!contains_chars(&chars_of("ab"), &chars_of("abc")));
}

#[test]
fn same_text_compares_characters() {
    assert!(same_text("H2M", "H2M"));
    assert!(!same_text("H2M", "h2m"));
    assert!(!same_text("H2M", "H2"));
    assert!(same_text("", ""));
}

#[test]
fn decimal_notation() {
    let mut out = String::from("p");
    push_decimal(&mut out, 0);
    push_decimal(&mut out, 27016);
    push_decimal(&mut out, 10);
    assert_eq!(out, "p02701610");
    let mut big = String::new();
    push_decimal(&mut big, u64::MAX);
    assert_eq!(big, "18446744073709551615");
}

#[test]
fn white_space_is_trimmed_at_both_ends_only() {
    let words = vec![
        String::from("\u{3000}\t Team  Death\u{a0}Match \u{2028}\u{85}"),
        String::from(" \n\u{2003}"),
        String::from("\u{200b}x\u{180e}"),
    ];
    assert_eq!(
        lowercase_vec(&words),
        vec!["team  death\u{a0}match", "", "\u{200b}x\u{180e}"]
    );
}

#[test]
fn white_space_set() {
    let listed = |c: char| {
        matches!(
            c as u32,
            0x09..=0x0D
                | 0x20
                | 0x85
                | 0xA0
                | 0x1680
                | 0x2000..=0x200A
                | 0x2028
                | 0x2029
                | 0x202F
                | 0x205F
                | 0x3000
        )
    };
    let mut count = 0;
    for code in 0..=0x10FFFFu32 {
        if let Some(c) = char::from_u32(code) {
            assert_eq!(c.is_whitespace(), listed(c), "U+{code:04X}");
            let word = vec![format!("{c}a{c}")];
            if listed(c) {
                count += 1;
                assert_eq!(lowercase_vec(&word), vec!["a"], "U+{code:04X}");
            }
        }
    }
    assert_eq!(count, 25);
}
