use lightfetch::config::document::{ConfigDocument, ConfigLookupError};
use lightfetch::config::helio::{ConfigError, ConfigTypeError, FilterType, Helio};
use lightfetch::config::syntax::ConfigSyntaxError;

fn loaded(text: &str) -> Helio {
    let mut config = Helio::new();
    config.load_text(text).unwrap();
    config
}

#[test]
fn quoted_value_reads_without_quotes() {
    let config = loaded("[GENERAL]\nkey = \"value\"\n");
    assert_eq!(config.get_str("GENERAL", "key"), Ok("value".to_string()));
}

#[test]
fn embedded_quotes_are_removed_too() {
    let config = loaded("key = \"va\"l\"ue\"\n");
    assert_eq!(config.get_str("default", "key"), Ok("value".to_string()));
}

#[test]
fn keys_before_a_header_go_to_the_default_section() {
    let config = loaded("a = 1\n[S]\nb = 2\n");
    assert_eq!(config.get_str("default", "a"), Ok("1".to_string()));
    assert_eq!(config.get_str("S", "b"), Ok("2".to_string()));
    assert_eq!(
        config.get_str("S", "a"),
        Err(ConfigLookupError::KeyNotFound)
    );
}

#[test]
fn lookup_errors() {
    let config = loaded("[S]\nbare\nk = v\n");
    assert_eq!(
        config.get_str("T", "k"),
        Err(ConfigLookupError::SectionNotFound)
    );
    assert_eq!(
        config.get_str("S", "missing"),
        Err(ConfigLookupError::KeyNotFound)
    );
    assert_eq!(
        config.get_str("S", "bare"),
        Err(ConfigLookupError::KeyHasNoValue)
    );
    assert_eq!(config.get_str("S", "k"), Ok("v".to_string()));
}

#[test]
fn an_empty_value_is_not_a_missing_value() {
    let config = loaded("k =\n");
    assert_eq!(config.get_str("default", "k"), Ok(String::new()));
}

#[test]
fn a_header_alone_makes_no_section() {
    let config = loaded("[S]\n");
    assert_eq!(
        config.get_str("S", "k"),
        Err(ConfigLookupError::SectionNotFound)
    );
}

#[test]
fn multiline_value() {
    let config = loaded("key = first\n  second\n");
    assert_eq!(
        config.get_str("default", "key"),
        Ok("first\nsecond".to_string())
    );
}

#[test]
fn multiline_value_with_another_separator() {
    let mut config = Helio::with_syntax("default", '#', '=', "\r\n");
    config.load_text("key = first\n  second\n\tthird").unwrap();
    assert_eq!(
        config.get_str("default", "key"),
        Ok("first\r\nsecond\r\nthird".to_string())
    );
}

#[test]
fn continuation_of_a_bare_key_starts_with_the_separator() {
    let config = loaded("key\n  more\n");
    assert_eq!(config.get_str("default", "key"), Ok("\nmore".to_string()));
}

#[test]
fn continuation_goes_to_the_current_section() {
    let config = loaded("[A]\nk = v\n[B]\n  more\n");
    assert_eq!(config.get_str("A", "k"), Ok("v".to_string()));
    assert_eq!(config.get_str("B", "k"), Ok("\nmore".to_string()));
}

#[test]
fn unterminated_header() {
    let mut config = Helio::new();
    assert_eq!(
        config.load_text("[ GENERAL"),
        Err(ConfigSyntaxError::MissingClosingBracket(1))
    );
    assert_eq!(
        config.load_text("a = b\n\n  [ GENERAL\n"),
        Err(ConfigSyntaxError::MissingClosingBracket(3))
    );
}

#[test]
fn continuation_without_a_key() {
    let config = Helio::new();
    assert!(matches!(
        config.parse("  lost\n"),
        Err(ConfigSyntaxError::MissingKeyForContinuation(1))
    ));
    assert!(matches!(
        config.parse("[S]\n# comment\n\tlost\n"),
        Err(ConfigSyntaxError::MissingKeyForContinuation(3))
    ));
}

#[test]
fn empty_key() {
    let config = Helio::new();
    assert!(matches!(
        config.parse("= value\n"),
        Err(ConfigSyntaxError::EmptyKey(1))
    ));
    assert!(matches!(
        config.parse("a = b\n\n= value\n"),
        Err(ConfigSyntaxError::EmptyKey(3))
    ));
}

#[test]
fn a_refused_text_leaves_the_store_alone() {
    let mut config = loaded("k = v\n");
    assert!(config.load_text("k = w\n[ broken\n").is_err());
    assert_eq!(config.get_str("default", "k"), Ok("v".to_string()));
}

#[test]
fn loading_replaces_the_document() {
    let mut config = loaded("k = v\n");
    config.load_text("other = w\n").unwrap();
    assert_eq!(
        config.get_str("default", "k"),
        Err(ConfigLookupError::KeyNotFound)
    );
}

#[test]
fn headers_are_trimmed_and_end_at_the_last_bracket() {
    let config = loaded("  [  NAME  ]  \nk = v\n[a]b]\nk = w\n");
    assert_eq!(config.get_str("NAME", "k"), Ok("v".to_string()));
    assert_eq!(config.get_str("a]b", "k"), Ok("w".to_string()));
}

#[test]
fn text_behind_the_last_bracket_is_dropped() {
    let config = loaded("[S] tail\nk = v\n");
    assert_eq!(config.get_str("S", "k"), Ok("v".to_string()));
}

#[test]
fn a_comment_character_cuts_inside_quotes_too() {
    let config = loaded("k = \"a # b\"\n");
    assert_eq!(config.get_str("default", "k"), Ok("a".to_string()));
}

#[test]
fn comment_lines_and_blank_lines_are_skipped() {
    let config = loaded("# one\n\n   \nk = v # two\n#[S]\n");
    assert_eq!(config.get_str("default", "k"), Ok("v".to_string()));
}

#[test]
fn a_repeated_key_overwrites() {
    let config = loaded("k = 1\nk = 2\n");
    assert_eq!(config.get_str("default", "k"), Ok("2".to_string()));
}

#[test]
fn a_reopened_section_keeps_its_keys() {
    let config = loaded("[S]\na = 1\n[T]\nb = 2\n[S]\nc = 3\n");
    assert_eq!(config.get_str("S", "a"), Ok("1".to_string()));
    assert_eq!(config.get_str("S", "c"), Ok("3".to_string()));
}

#[test]
fn only_the_first_delimiter_parts_key_and_value() {
    let config = loaded("k = a = b\n");
    assert_eq!(config.get_str("default", "k"), Ok("a = b".to_string()));
}

#[test]
fn keys_may_hold_spaces_and_signs() {
    let config = loaded("[ GENERAL ]\nauto center = true\n^ prefix = \"{\"\n");
    assert_eq!(config.get_bool("GENERAL", "auto center"), Ok(true));
    assert_eq!(config.get_str("GENERAL", "^ prefix"), Ok("{".to_string()));
}

#[test]
fn carriage_returns_end_lines_with_the_line_feed() {
    let config = loaded("[S]\r\nk = v\r\n  w\r\n");
    assert_eq!(config.get_str("S", "k"), Ok("v\nw".to_string()));
}

#[test]
fn another_grammar() {
    let mut config = Helio::with_syntax("top", ';', ':', "\n");
    config.load_text("k : v ; note\n# = x\n").unwrap();
    assert_eq!(config.get_str("top", "k"), Ok("v".to_string()));
    assert_eq!(
        config.get_str("top", "# = x"),
        Err(ConfigLookupError::KeyHasNoValue)
    );
}

#[test]
fn booleans() {
    let config = loaded("a = true\nb = \"false\"\nc = yes\nd = True\ne\n");
    assert_eq!(config.get_bool("default", "a"), Ok(true));
    assert_eq!(config.get_bool("default", "b"), Ok(false));
    assert_eq!(
        config.get_bool("default", "c"),
        Err(ConfigError::Type(ConfigTypeError::NotABoolean))
    );
    assert_eq!(
        config.get_bool("default", "d"),
        Err(ConfigError::Type(ConfigTypeError::NotABoolean))
    );
    assert_eq!(
        config.get_bool("default", "e"),
        Err(ConfigError::Lookup(ConfigLookupError::KeyHasNoValue))
    );
    assert_eq!(
        config.get_bool("default", "f"),
        Err(ConfigError::Lookup(ConfigLookupError::KeyNotFound))
    );
    assert_eq!(
        config.get_bool("other", "a"),
        Err(ConfigError::Lookup(ConfigLookupError::SectionNotFound))
    );
}

#[test]
fn integers() {
    let config = loaded(
        "a = 42\nb = \"007\"\nc = +5\nd = -1\ne = 4294967295\nf = 4294967296\ng = 1 2\nh =\ni = +\nj = 99999999999999999999999999\n",
    );
    assert_eq!(config.get_int("default", "a"), Ok(42));
    assert_eq!(config.get_int("default", "b"), Ok(7));
    assert_eq!(config.get_int("default", "c"), Ok(5));
    let bad = Err(ConfigError::Type(ConfigTypeError::NotAnInteger));
    assert_eq!(config.get_int("default", "d"), bad);
    assert_eq!(config.get_int("default", "e"), Ok(4294967295));
    assert_eq!(config.get_int("default", "f"), bad);
    assert_eq!(config.get_int("default", "g"), bad);
    assert_eq!(config.get_int("default", "h"), bad);
    assert_eq!(config.get_int("default", "i"), bad);
    assert_eq!(config.get_int("default", "j"), bad);
    assert_eq!(
        config.get_int("default", "zz"),
        Err(ConfigError::Lookup(ConfigLookupError::KeyNotFound))
    );
}

#[test]
fn integers_agree_with_the_standard_parser() {
    let samples = [
        "0", "00", "+0", "++1", "1+", " 1", "12a", "4294967295", "4294967296", "", "+", "-0",
        "١٢", "0000000000000000000000001", "18446744073709551616",
    ];
    for s in samples {
        let mut config = Helio::new();
        config.set_str("s", "k", Some(s));
        assert_eq!(config.get_int("s", "k").ok(), s.parse::<u32>().ok(), "{s:?}");
    }
}

#[test]
fn filters() {
    let config = loaded(
        "a = Nearest\nb = \"Gaussian\"\nc = Triangle\nd = Catmull\ne = Lanczos\nf = CatmullRom\ng = nearest\n",
    );
    assert_eq!(config.get_filter("default", "a"), Ok(FilterType::Nearest));
    assert_eq!(config.get_filter("default", "b"), Ok(FilterType::Gaussian));
    assert_eq!(config.get_filter("default", "c"), Ok(FilterType::Triangle));
    assert_eq!(config.get_filter("default", "d"), Ok(FilterType::CatmullRom));
    assert_eq!(config.get_filter("default", "e"), Ok(FilterType::Lanczos3));
    let bad = Err(ConfigError::Type(ConfigTypeError::UnknownFilterName));
    assert_eq!(config.get_filter("default", "f"), bad);
    assert_eq!(config.get_filter("default", "g"), bad);
    assert_eq!(
        config.get_filter("default", "h"),
        Err(ConfigError::Lookup(ConfigLookupError::KeyNotFound))
    );
}

#[test]
fn set_makes_the_section_and_returns_the_old_slot() {
    let mut config = Helio::new();
    assert_eq!(config.set("S", "k", Some("v".to_string())), None);
    assert_eq!(config.get_str("S", "k"), Ok("v".to_string()));
    assert_eq!(
        config.set("S", "k", None),
        Some(Some("v".to_string()))
    );
    assert_eq!(
        config.get_str("S", "k"),
        Err(ConfigLookupError::KeyHasNoValue)
    );
    assert_eq!(config.set_str("S", "k", Some("w")), Some(None));
    assert_eq!(config.set_str("S", "other", Some("x")), None);
    assert_eq!(config.get_str("S", "k"), Ok("w".to_string()));
    assert_eq!(config.get_str("S", "other"), Ok("x".to_string()));
}

#[test]
fn set_performs_no_validation() {
    let mut config = Helio::new();
    config.set_str("", "", Some(" = # [\n"));
    assert_eq!(config.get_str("", ""), Ok(" = # [\n".to_string()));
}

#[test]
fn read_write_read_gives_the_same_text() {
    let mut config = loaded("[S]\nk = \"a \"quoted\" word\"\n");
    let first = config.get_str("S", "k").unwrap();
    config.set_str("S", "k", Some(&first));
    let second = config.get_str("S", "k").unwrap();
    assert_eq!(first, "a quoted word");
    assert_eq!(second, first);
}

#[test]
fn documents_can_be_used_on_their_own() {
    let mut doc = ConfigDocument::new();
    assert!(!doc.has_section("S"));
    assert_eq!(doc.set("S", "k", Some("\"v\"".to_string())), None);
    assert!(doc.has_section("S"));
    assert_eq!(doc.get("S", "k"), Ok(&"\"v\"".to_string()));
    assert_eq!(doc.get("S", "x"), Err(ConfigLookupError::KeyNotFound));
    assert_eq!(doc.get("T", "k"), Err(ConfigLookupError::SectionNotFound));
    let parsed = Helio::new().parse("[T]\nk = 1\n").ok().unwrap();
    assert_eq!(parsed.get("T", "k"), Ok(&"1".to_string()));
}
