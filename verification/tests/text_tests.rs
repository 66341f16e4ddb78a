use chess_client::text::{chars_of, digit, is_whitespace, parse_i32, split_whitespace};

fn std_words(s: &str) -> Vec<String> {
    s.split_whitespace().map(|w| w.to_string()).collect()
}

#[test]
fn split_whitespace_matches_std() {
    let samples = [
        "",
        "   ",
        "get_games",
        "  create_game   white  ",
        "make_move\te2\ne4",
        "join_game\u{a0}3",
        "a\u{3000}b\u{2028}c\u{85}d",
        "x\u{200b}y",
        "échec et mat",
        " \t\r\n",
    ];
    for s in samples {
        assert_eq!(split_whitespace(s), std_words(s), "input {:?}", s);
    }
}

#[test]
fn split_whitespace_separates_words() {
    assert_eq!(
        split_whitespace("  make_move  e2 e4 "),
        vec!["make_move".to_string(), "e2".to_string(), "e4".to_string()]
    );
    assert!(split_whitespace("").is_empty());
}

#[test]
fn is_whitespace_matches_std() {
    for code in 0u32..0x3100 {
        if let Some(c) = char::from_u32(code) {
            assert_eq!(is_whitespace(c), c.is_whitespace(), "char {:?}", c);
        }
    }
    assert!(!is_whitespace('\u{feff}'));
}

#[test]
fn parse_i32_matches_std() {
    let samples = [
        "0", "7", "+7", "-7", "-0", "+", "-", "", "12a", "a12", "007", "2147483647",
        "2147483648", "-2147483648", "-2147483649", "99999999999999999999", "--1", "+-1",
        " 1", "1 ", "٣", "-00000000000000000000012",
    ];
    for s in samples {
        assert_eq!(parse_i32(s), s.parse::<i32>().ok(), "input {:?}", s);
    }
}

#[test]
fn parse_i32_exact_values() {
    assert_eq!(parse_i32("42"), Some(42));
    assert_eq!(parse_i32("-2147483648"), Some(i32::MIN));
    assert_eq!(parse_i32("2147483648"), None);
    assert_eq!(parse_i32("x"), None);
}

#[test]
fn chars_of_keeps_every_char() {
    assert_eq!(chars_of("aé♞"), vec!['a', 'é', '♞']);
}

#[test]
fn digits_are_written_in_base_ten() {
    assert_eq!(digit(0), '0');
    assert_eq!(digit(8), '8');
}
