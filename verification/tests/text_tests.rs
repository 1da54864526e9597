use say2::text::{
    chars_of, decimal_string, join_with_spaces, lowercase_chars, parse_tags, parse_u32, trim,
};

#[test]
fn parse_tags_strips_hash_and_blanks() {
    assert_eq!(parse_tags("#past  work"), vec!["past", "work"]);
    assert_eq!(parse_tags("   "), Vec::<String>::new());
    assert_eq!(parse_tags(""), Vec::<String>::new());
}

#[test]
fn parse_tags_drops_bare_hashes_and_splits_on_any_whitespace() {
    assert_eq!(parse_tags("## #a\tb\u{3000}##c #"), vec!["a", "b", "c"]);
}

#[test]
fn trim_removes_unicode_whitespace_only_at_the_ends() {
    assert_eq!(trim("  a b \n"), "a b");
    assert_eq!(trim("\u{a0}x\u{2009}"), "x");
    assert_eq!(trim(" \t "), "");
}

#[test]
fn decimal_numbers_round_trip() {
    for n in [0u32, 7, 10, 175, 4_000_000_000, u32::MAX] {
        let s = decimal_string(n);
        assert_eq!(s, n.to_string());
        assert_eq!(parse_u32(&s), Some(n));
    }
}

#[test]
fn parse_u32_matches_std() {
    for s in ["", "+", "+5", "-5", "12a", "007", "4294967295", "4294967296", "99999999999"] {
        assert_eq!(parse_u32(s), s.parse::<u32>().ok(), "input {s:?}");
    }
}

#[test]
fn join_and_chars() {
    let parts = vec!["a".to_string(), "bc".to_string()];
    assert_eq!(join_with_spaces(&parts), "a bc");
    assert_eq!(join_with_spaces(&Vec::new()), "");
    assert_eq!(chars_of("hé"), vec!['h', 'é']);
}

#[test]
fn lowercase_follows_unicode() {
    assert_eq!(lowercase_chars("ÀB"), vec!['à', 'b']);
    assert_eq!(lowercase_chars(""), Vec::<char>::new());
}
