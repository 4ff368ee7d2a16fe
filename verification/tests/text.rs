use asgr::text::{is_white_space_char, split_words};

#[test]
fn white_space_matches_std_for_every_char() {
    for u in 0u32..=0x10FFFF {
        if let Some(c) = char::from_u32(u) {
            assert_eq!(is_white_space_char(c), c.is_whitespace(), "U+{:04X}", u);
        }
    }
}

#[test]
fn split_matches_std_split_whitespace() {
    let samples = [
        "",
        " ",
        "a",
        "echo hello",
        "  leading and trailing  ",
        "tabs\tand\nnewlines\r\nhere",
        "wide\u{3000}space\u{2003}and\u{85}next\u{a0}nbsp",
        "über straße  ünïcödé",
        "x\u{200b}y",
        "\u{1680}\u{2028}\u{2029}\u{202f}\u{205f}",
    ];
    for s in samples.iter() {
        let expected: Vec<String> = s.split_whitespace().map(|w| w.to_string()).collect();
        assert_eq!(split_words(s), expected, "{:?}", s);
    }
}

#[test]
fn split_words_are_nonblank() {
    let words = split_words(" a  bc\t d ");
    assert_eq!(words, vec!["a".to_string(), "bc".to_string(), "d".to_string()]);
    for w in words {
        assert!(!w.is_empty());
        assert!(!w.chars().any(|c| c.is_whitespace()));
    }
}
