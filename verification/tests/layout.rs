use lightfetch::config::cache::Image;
use lightfetch::data::FetchData;
use lightfetch::image::default::{push_cell, Pixel, Pixels};
use lightfetch::image::ImageBuilder;
use lightfetch::layout::{case_marker, fill, fill_head, fold_regions, gapped, lead};
use lightfetch::util::numeral::{read_i32, read_u64};
use lightfetch::util::text::{nth_word, pieces_around, replace_pattern};
use lightfetch::variable::creator::{symbols_of, variable_creator};

fn chars(s: &str) -> Vec<char> {
    s.chars().collect()
}

fn text(v: &Vec<char>) -> String {
    v.iter().collect()
}

#[test]
fn gaps() {
    assert_eq!(gapped("text", "  ", false), "  text");
    assert_eq!(gapped("text", "  ", true), "text  ");
    assert_eq!(gapped("", "", true), "");
}

#[test]
fn leading_lines() {
    assert_eq!(lead(true, 9, 4), "\n\n");
    assert_eq!(lead(true, 5, 4), "");
    assert_eq!(lead(true, 4, 9), "");
    assert_eq!(lead(false, 9, 4), "");
}

#[test]
fn case_markers() {
    assert_eq!(case_marker("\"[{letter}]\"", "U"), "[U]");
    assert_eq!(case_marker("[/{letter}]", "L"), "[/L]");
    assert_eq!(case_marker("{letter}{letter}", "\"x\""), "xx");
    assert_eq!(case_marker("plain", "U"), "plain");
}

#[test]
fn case_regions_in_one_step() {
    assert_eq!(
        fold_regions("[U]Loud[/U] and [L]Quiet[/L]", "[U]", "[/U]", "[L]", "[/L]"),
        "LOUD and quiet"
    );
    assert_eq!(
        fold_regions("[U]a[L]B[/L]c[/U]", "[U]", "[/U]", "[L]", "[/L]"),
        "AbC"
    );
    assert_eq!(
        fold_regions("[L]A[U]b[/U]C[/L]", "[U]", "[/U]", "[L]", "[/L]"),
        "abc"
    );
}

#[test]
fn filling() {
    let lines = vec![
        "ab{FILL}|".to_string(),
        "abcd{FILL}|".to_string(),
        "plain".to_string(),
        "wide and ignored{IGNORE}{FILL}|".to_string(),
        "x{IGNORE}".to_string(),
        "p{FILL}q{FILL}r".to_string(),
    ];
    let heads: Vec<String> = lines.iter().map(|l| fill_head(l)).collect();
    assert_eq!(
        heads,
        vec!["ab", "abcd", "plain", "wide and ignored{IGNORE}", "x{IGNORE}", "p"]
    );
    let widths = vec![2, 4, 5, 16, 1, 1];
    assert_eq!(
        fill(&lines, &widths),
        vec![
            "ab  |",
            "abcd|",
            "plain",
            "wide and ignored|",
            "x   ",
            "p   q"
        ]
    );
}

#[test]
fn fill_heads_are_measured_without_codes() {
    assert_eq!(fill_head("\x1b[31mred\x1b[0m{FILL}rest"), "red");
    assert_eq!(fill_head("no mark"), "no mark");
    let empty: Vec<String> = Vec::new();
    assert_eq!(fill(&Vec::new(), &Vec::new()), empty);
}

#[test]
fn replacing_agrees_with_the_standard_library() {
    let cases = [
        ("a{x}b{x}", "{x}", "YY"),
        ("aaaa", "aa", "a"),
        ("abc", "", "z"),
        ("abc", "abc", ""),
        ("", "a", "b"),
        ("ababa", "aba", "c"),
    ];
    for (s, pat, with) in cases {
        let expected = if pat.is_empty() {
            s.to_string()
        } else {
            s.replace(pat, with)
        };
        assert_eq!(
            text(&replace_pattern(&chars(s), &chars(pat), &chars(with))),
            expected
        );
    }
}

#[test]
fn pieces_agree_with_the_standard_library() {
    for s in ["a{FILL}b", "a{FILL}b{FILL}c", "none", "{FILL}", "", "x{FILL}"] {
        let mut parts = s.split("{FILL}");
        let first = parts.next().unwrap();
        let second = parts.next().unwrap_or("");
        let (a, b) = pieces_around(&chars(s), &chars("{FILL}"));
        assert_eq!(text(&a), first, "{s:?}");
        assert_eq!(text(&b), second, "{s:?}");
    }
}

#[test]
fn words_agree_with_the_standard_library() {
    for s in ["", "  ", "a", " a  bb\tccc\n d ", "one\u{a0}two", "x\u{200b}y z"] {
        for n in 0..5 {
            let expected = s.split_whitespace().nth(n).map(String::from);
            assert_eq!(nth_word(&chars(s), n).map(|w| text(&w)), expected, "{s:?} {n}");
        }
    }
}

#[test]
fn numbers_agree_with_the_standard_library() {
    let samples = [
        "0", "-0", "+0", "-", "+", "", "12", "-12", "+12", "--1", "-+1", "+-1", "2147483647",
        "2147483648", "-2147483648", "-2147483649", "18446744073709551615",
        "18446744073709551616", "1e3", " 1",
    ];
    for s in samples {
        assert_eq!(read_i32(&chars(s)), s.parse::<i32>().ok(), "{s:?}");
        assert_eq!(read_u64(&chars(s)), s.parse::<u64>().ok(), "{s:?}");
    }
}

fn clear() -> Pixel {
    Pixel { r: 9, g: 9, b: 9, a: 0 }
}

fn solid(r: u8, g: u8, b: u8) -> Pixel {
    Pixel { r, g, b, a: 255 }
}

#[test]
fn cells() {
    let mut out = String::from(">");
    push_cell(&mut out, clear(), clear());
    assert_eq!(out, "> ");
    let mut out = String::new();
    push_cell(&mut out, clear(), solid(1, 20, 255));
    assert_eq!(out, "\x1b[48;2;1;20;255m▀");
    let mut out = String::new();
    push_cell(&mut out, solid(0, 0, 7), clear());
    assert_eq!(out, "\x1b[38;2;0;0;7m▄");
    let mut out = String::new();
    push_cell(&mut out, solid(1, 2, 3), solid(4, 5, 6));
    assert_eq!(out, "\x1b[38;2;1;2;3m\x1b[48;2;4;5;6m▀");
}

#[test]
fn rendering() {
    // Two columns, five rows: two lines, the last row left out.
    let data = vec![
        clear(), solid(1, 1, 1),
        clear(), solid(2, 2, 2),
        solid(3, 3, 3), clear(),
        clear(), clear(),
        solid(9, 9, 9), solid(9, 9, 9),
    ];
    let pixels = Pixels::new(2, 5, data).unwrap();
    assert_eq!(
        lightfetch::image::default::Default::render(&pixels),
        " \x1b[38;2;1;1;1m\x1b[48;2;2;2;2m▀\x1b[0m\n\x1b[38;2;3;3;3m▄ \x1b[0m\n"
    );
    assert_eq!(lightfetch::image::default::Default::render(&Pixels::new(3, 0, Vec::new()).unwrap()), "");
    assert_eq!(lightfetch::image::default::Default::render(&Pixels::new(0, 4, Vec::new()).unwrap()), "\x1b[0m\n\x1b[0m\n");
    assert!(Pixels::new(2, 2, vec![clear()]).is_none());
}

#[test]
fn image_holders() {
    let image = Image::new("data".to_string(), "hash".to_string());
    assert_eq!(lightfetch::image::default::Default::new(image).image.hash, "hash");
    let image = Image::new("data".to_string(), "hash".to_string());
    assert_eq!(ImageBuilder::init(image).image.data, "data");
}

#[test]
fn system_symbols() {
    let mut data = FetchData::new();
    data.get_user(Some("me".to_string()), "box\n");
    let symbols = symbols_of(&data);
    assert_eq!(symbols.get("USERNAME"), Some(&"me".to_string()));
    assert_eq!(symbols.get("KERNEL"), Some(&"UNKNOWN".to_string()));
    assert_eq!(symbols.get("FILL"), Some(&"{FILL}".to_string()));
    assert_eq!(symbols.get("IGNORE"), Some(&"{IGNORE}".to_string()));
    assert_eq!(symbols.get("RED"), Some(&"\x1b[31m".to_string()));
    assert_eq!(symbols.get("CPU_LOAD"), None);
    let out = variable_creator(
        "{blue}{USERNAME}@{hostname} {fill}|{nothing}".to_string(),
        data,
        "{".to_string(),
        "}".to_string(),
    );
    assert_eq!(out, "\x1b[34mme@box {FILL}|");
}
