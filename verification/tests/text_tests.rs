use second_screen::text::{eq_ignore_ascii_case, lex_less, parse_usize, trim_chars};

#[test]
fn trimming_matches_std() {
    for s in ["", "  a b  ", "\u{3000}x\u{85}", "\t\n", "zz", " \u{2009}q\u{a0}"] {
        let expected: Vec<char> = s.trim().chars().collect();
        assert_eq!(trim_chars(s), expected);
    }
}

#[test]
fn parsing_matches_std() {
    for s in ["0", "+7", "007", "", "+", "-1", "12a", "18446744073709551615", "18446744073709551616"] {
        let chars: Vec<char> = s.chars().collect();
        assert_eq!(parse_usize(&chars), s.parse::<usize>().ok(), "{}", s);
    }
}

#[test]
fn case_folding() {
    assert!(eq_ignore_ascii_case("TrUe", "true"));
    assert!(!eq_ignore_ascii_case("truee", "true"));
    assert!(eq_ignore_ascii_case("Ż1", "Ż1"));
}

#[test]
fn ordering_matches_strings() {
    let pairs = [("a", "b"), ("ab", "a"), ("", "x"), ("x", "x"), ("Z", "a"), ("ą", "z")];
    for (a, b) in pairs {
        let ca: Vec<char> = a.chars().collect();
        let cb: Vec<char> = b.chars().collect();
        assert_eq!(lex_less(&ca, &cb), a < b, "{} {}", a, b);
    }
}
