use lightfetch::fetch::uptime::time_prefix;
use lightfetch::util::hyperstr::ascii_check;
use lightfetch::util::mth::to_vector;
use lightfetch::util::numeral::{decimal_of, read_bool, read_u32};
use lightfetch::util::table::Table;
use lightfetch::util::text::{
    char_is_whitespace, index_of, index_of_sub, last_index_of, remove_char, remove_pattern,
    split_chars, split_lines, string_of, strip_blanks, to_chars, width_of,
};

fn chars(s: &str) -> Vec<char> {
    s.chars().collect()
}

fn text(v: &Vec<char>) -> String {
    v.iter().collect()
}

const SAMPLES: [&str; 14] = [
    "",
    " ",
    "a",
    "  a b  ",
    "\t\r\n x \u{a0}\u{3000}",
    "\u{85}y\u{2028}",
    "\u{200b}z\u{200b}",
    "a\nb",
    "a\n",
    "\n",
    "a\r\nb\r",
    "\r\n\r\n",
    "a\n\nb\n\n",
    "x\ry\n\rz",
];

#[test]
fn whitespace_is_what_the_standard_library_says() {
    let mut c = 0u32;
    while c <= 0x10FFFF {
        if let Some(ch) = char::from_u32(c) {
            assert_eq!(char_is_whitespace(ch), ch.is_whitespace(), "U+{c:04X}");
        }
        c += 1;
    }
}

#[test]
fn conversions_keep_every_character() {
    for s in SAMPLES {
        assert_eq!(to_chars(s), chars(s));
        assert_eq!(string_of(&chars(s)), s);
    }
    assert_eq!(to_chars("ä😳"), vec!['ä', '😳']);
}

#[test]
fn trimming_agrees_with_the_standard_library() {
    for s in SAMPLES {
        assert_eq!(text(&strip_blanks(&chars(s), true)), s.trim(), "{s:?}");
        assert_eq!(
            text(&strip_blanks(&chars(s), false)),
            s.trim_start_matches(' ').trim_end_matches(' '),
            "{s:?}"
        );
    }
}

#[test]
fn lines_agree_with_the_standard_library() {
    for s in SAMPLES {
        let ours: Vec<String> = split_lines(&chars(s)).iter().map(text).collect();
        let theirs: Vec<String> = s.lines().map(String::from).collect();
        assert_eq!(ours, theirs, "{s:?}");
    }
}

#[test]
fn splitting_agrees_with_the_standard_library() {
    for s in SAMPLES {
        let ours: Vec<String> = split_chars(&chars(s), '\n').iter().map(text).collect();
        let theirs: Vec<String> = s.split('\n').map(String::from).collect();
        assert_eq!(ours, theirs, "{s:?}");
        assert_eq!(to_vector(s.to_string()), theirs, "{s:?}");
    }
}

#[test]
fn searching_agrees_with_the_standard_library() {
    let s = "abc]de]f=";
    let v = chars(s);
    assert_eq!(index_of(&v, ']', 0), s.find(']'));
    assert_eq!(index_of(&v, ']', 4), Some(6));
    assert_eq!(index_of(&v, 'z', 0), None);
    assert_eq!(index_of(&v, '=', 9), None);
    assert_eq!(last_index_of(&v, ']'), s.rfind(']'));
    assert_eq!(last_index_of(&v, 'z'), None);
    assert_eq!(index_of_sub(&v, &chars("de"), 0), s.find("de"));
    assert_eq!(index_of_sub(&v, &chars("de"), 5), None);
    assert_eq!(index_of_sub(&v, &chars(""), 3), Some(3));
    assert_eq!(index_of_sub(&v, &chars(""), 9), Some(9));
    assert_eq!(index_of_sub(&v, &chars(""), 10), None);
    assert_eq!(index_of_sub(&v, &chars("f="), 0), Some(7));
    assert_eq!(index_of_sub(&v, &chars("f=x"), 0), None);
}

#[test]
fn removal_agrees_with_the_standard_library() {
    let cases = [("aXbXXc", "X"), ("aaa", "aa"), ("abab", "ab"), ("abc", "abcd"), ("", "a")];
    for (s, pat) in cases {
        assert_eq!(
            text(&remove_pattern(&chars(s), &chars(pat))),
            s.replace(pat, ""),
            "{s:?} {pat:?}"
        );
    }
    assert_eq!(text(&remove_pattern(&chars("abc"), &chars(""))), "abc");
    assert_eq!(text(&remove_char(&chars("\"a\"b\""), '"')), "ab");
}

#[test]
fn widths_are_counted_in_bytes() {
    assert_eq!(width_of(""), 0);
    assert_eq!(width_of("abc"), 3);
    assert_eq!(width_of("é─😳"), 2 + 3 + 4);
}

#[test]
fn numerals() {
    assert_eq!(text(&decimal_of(0)), "0");
    assert_eq!(text(&decimal_of(7)), "7");
    assert_eq!(text(&decimal_of(10)), "10");
    assert_eq!(text(&decimal_of(9051)), "9051");
    assert_eq!(text(&decimal_of(usize::MAX)), usize::MAX.to_string());
    assert_eq!(read_u32(&chars("123")), Some(123));
    assert_eq!(read_u32(&chars("+123")), Some(123));
    assert_eq!(read_u32(&chars("1x")), None);
    assert_eq!(read_bool(&chars("true")), Some(true));
    assert_eq!(read_bool(&chars("false")), Some(false));
    assert_eq!(read_bool(&chars("TRUE")), None);
    assert_eq!(read_bool(&chars("")), None);
}

#[test]
fn time_prefix_fills_single_digits() {
    assert_eq!(time_prefix("5".to_string()), "05");
    assert_eq!(time_prefix("12".to_string()), "12");
    assert_eq!(time_prefix(String::new()), "");
    assert_eq!(time_prefix("ä".to_string()), "ä");
}

#[test]
fn art_is_padded_by_half_the_difference() {
    let line = format!("{}\n", " ".repeat(24));
    let mut art = String::from("art");
    ascii_check(true, &mut art, 7, 2);
    assert_eq!(art, format!("art{line}{line}"));
    let mut art = String::from("art");
    ascii_check(false, &mut art, 7, 2);
    assert_eq!(art, "art");
    ascii_check(true, &mut art, 2, 7);
    assert_eq!(art, "art");
    ascii_check(true, &mut art, 3, 2);
    assert_eq!(art, "art");
}

#[test]
fn tables_keep_one_value_for_each_key() {
    let mut table: Table<u32> = Table::new();
    assert_eq!(table.insert("a", 1), None);
    assert_eq!(table.insert("b", 2), None);
    assert_eq!(table.insert("a", 3), Some(1));
    assert_eq!(table.get("a"), Some(&3));
    assert_eq!(table.get("b"), Some(&2));
    assert_eq!(table.get("c"), None);
    assert!(table.contains_key("b"));
    assert!(!table.contains_key(""));
    assert_eq!(table.len(), 2);
    assert_eq!(table.key_at(0), "a");
    assert_eq!(table.value_at(1), &2);
}
