use lightfetch::error::stylize::apply_border;
use lightfetch::error::{ErrorLevel, LightError};
use lightfetch::util::hyperstr::{Ansi, LIGHT_RED, RED, RESET};

fn soft_err(s: &str, c: &str, text: &str) -> String {
    let new = String::from(c) + s + (c) + text;
    apply_border(&new, c)
}

#[test]
fn test_error() {
    let err = soft_err("ERROR: ", LIGHT_RED, "This is a test error.");

    println!("{}", err);

    assert_eq!(
        err.strip_ansi_colors(),
        "╭──────────────────────────────╮
│ ERROR: This is a test error. │
╰──────────────────────────────╯"
    );
}

#[test]
fn test_border() {
    let text = "Hello, world!";
    let output = apply_border(text, RED);
    println!("{}", output);
    assert_eq!(
        output.strip_ansi_colors(),
        "╭───────────────╮
│ Hello, world! │
╰───────────────╯"
    );
}

#[test]
fn test_border_multi() {
    let text = "Hello, world!

This is a test.";
    let output = apply_border(text, RED);
    println!("{}", output);
    assert_eq!(
        output.strip_ansi_colors(),
        "╭─────────────────╮
│ Hello, world!   │
│                 │
│ This is a test. │
╰─────────────────╯"
    );
}

#[test]
fn border_keeps_the_codes() {
    let output = apply_border("hi", RED);
    assert_eq!(
        output,
        format!("{RED}╭────╮\n│ {RESET}hi{RED} │\n╰────╯")
    );
}

#[test]
fn border_measures_without_codes() {
    let text = format!("{RED}ab{RESET}");
    let output = apply_border(&text, RED);
    assert_eq!(
        output,
        format!("{RED}╭────╮\n│ {RESET}{RED}ab{RESET}{RED} │\n╰────╯")
    );
}

#[test]
fn border_of_empty_text() {
    assert_eq!(apply_border("", "").as_str(), "╭──╮\n│ \u{1b}[0m │\n╰──╯");
}

#[test]
fn multi_border_pads_each_line() {
    let output = apply_border("a\nbcd", "");
    assert_eq!(
        output,
        format!("╭─────╮\n│ {RESET}a   │\n│ {RESET}bcd │\n╰─────╯")
    );
}

#[test]
fn strip_removes_every_code() {
    let text = "Hello, \x1b[31mworld\x1b[0m!";
    assert_eq!(text.strip_ansi_colors(), "Hello, world!");
}

#[test]
fn strip_goes_code_by_code() {
    // Removing the reset first joins the halves of a colour code, which the
    // later pass for colours then removes.
    let text = "a\x1b[3\x1b[0m1mb";
    assert_eq!(text.strip_ansi_colors(), "ab");
    // The other way round nothing is joined in time: bold is removed before
    // the colours, the reset was removed before bold.
    let text = "a\x1b[\x1b[31m0mb";
    assert_eq!(text.strip_ansi_colors(), "a\x1b[0mb");
}

#[test]
fn strip_agrees_with_replace() {
    let text = "\x1b[1m\x1b[97mx\x1b[4m\x1b[0m y \x1b[38m";
    let expected = text
        .replace("\x1b[0m", "")
        .replace("\x1b[1m", "")
        .replace("\x1b[4m", "")
        .replace("\x1b[97m", "");
    assert_eq!(text.strip_ansi_colors(), expected);
}

#[test]
fn light_error_keeps_its_parts() {
    let e = LightError::new("broken".to_string(), ErrorLevel::Config);
    assert_eq!(e.message, "broken");
    assert_eq!(e.level, ErrorLevel::Config);
    assert!(e.is_fatal());
    assert!(!LightError::new(String::new(), ErrorLevel::Warning).is_fatal());
    assert!(LightError::new(String::new(), ErrorLevel::Error).is_fatal());
}

#[test]
fn light_error_labels_by_level() {
    let e = LightError::new("m".to_string(), ErrorLevel::Config);
    assert_eq!(e.label(), format!("{LIGHT_RED}CONFIG: {LIGHT_RED}m"));
    let e = LightError::new("m".to_string(), ErrorLevel::Warning);
    assert_eq!(e.label(), format!("{LIGHT_RED}WARNING: {RESET}m"));
    let e = LightError::new("m".to_string(), ErrorLevel::Error);
    assert_eq!(e.label(), format!("{RED}ERROR: {RED}m"));
}

#[test]
fn light_error_renders_in_a_frame() {
    let e = LightError::new("This is a test error.".to_string(), ErrorLevel::Error);
    assert_eq!(
        e.render().strip_ansi_colors(),
        "╭──────────────────────────────╮
│ ERROR: This is a test error. │
╰──────────────────────────────╯"
    );
    assert!(e.render().starts_with(RED));
}
