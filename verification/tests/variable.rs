use lightfetch::util::hyperstr::colormap;
use lightfetch::variable::creator::{Creator, Diagnostic};
use lightfetch::variable::iterator::{Type, VariableIterator};
use lightfetch::variable::symbols::SymbolTable;

fn literal(s: &str) -> Type {
    Type::Default(s.to_string())
}

fn placeholder(s: &str) -> Type {
    Type::Variable(s.to_string())
}

#[test]
fn tokens_of_a_greeting() {
    let creator = Creator::init("Hello {NAME}!", "{", "}");
    assert_eq!(
        creator.token_list(),
        &vec![literal("Hello "), placeholder("NAME"), literal("!")]
    );
    let mut symbols = SymbolTable::new();
    symbols.insert("NAME", "World");
    assert_eq!(
        creator.process_variables(&symbols),
        Some("Hello World!".to_string())
    );
    assert!(creator.variable_diagnostics(&symbols).is_empty());
}

#[test]
fn a_dangling_start_is_no_error() {
    let creator = Creator::init("foo {BAR", "{", "}");
    assert_eq!(
        creator.token_list(),
        &vec![literal("foo "), literal("{BAR")]
    );
    let symbols = SymbolTable::new();
    assert_eq!(
        creator.process_variables(&symbols),
        Some("foo {BAR".to_string())
    );
    assert!(creator.variable_diagnostics(&symbols).is_empty());
    assert_eq!(creator.process_case(0), Some("foo {BAR".to_string()));
}

#[test]
fn an_unknown_placeholder_gives_nothing_and_a_diagnostic() {
    let symbols = SymbolTable::new();
    let creator = Creator::init("{UNKNOWN}", "{", "}");
    assert_eq!(creator.process_variables(&symbols), Some(String::new()));
    assert_eq!(
        creator.variable_diagnostics(&symbols),
        vec![Diagnostic::UnresolvedPlaceholder("UNKNOWN".to_string())]
    );
    let creator = Creator::init("before {UNKNOWN} after", "{", "}");
    assert_eq!(
        creator.process_variables(&symbols),
        Some("before  after".to_string())
    );
}

#[test]
fn case_regions() {
    let text = "[U]Loud[/U] and [L]Quiet[/L]";
    let upper = Creator::init(text, "[U]", "[/U]").process_case(0).unwrap();
    assert_eq!(upper, "LOUD and [L]Quiet[/L]");
    let lower = Creator::init(&upper, "[L]", "[/L]").process_case(1).unwrap();
    assert_eq!(lower, "LOUD and quiet");
}

#[test]
fn an_unknown_case_mode_gives_nothing_and_diagnostics() {
    let creator = Creator::init("a{b}c{d}", "{", "}");
    assert_eq!(creator.process_case(2), Some("ac".to_string()));
    assert_eq!(
        creator.case_diagnostics(2),
        vec![Diagnostic::InvalidCase(2), Diagnostic::InvalidCase(2)]
    );
    assert!(creator.case_diagnostics(0).is_empty());
    assert!(creator.case_diagnostics(1).is_empty());
}

#[test]
fn case_folding_is_the_standard_mapping() {
    let creator = Creator::init("<straße ǅ>", "<", ">");
    assert_eq!(creator.process_case(0), Some("straße ǅ".to_uppercase()));
    assert_eq!(creator.process_case(1), Some("straße ǅ".to_lowercase()));
    assert_eq!(creator.process_case(0), Some("STRASSE Ǆ".to_string()));
}

#[test]
fn names_are_looked_up_in_upper_case() {
    let mut symbols = SymbolTable::new();
    symbols.insert("NAME", "x");
    symbols.insert("lower", "never");
    let creator = Creator::init("{name}{Name}{lower}", "{", "}");
    assert_eq!(creator.process_variables(&symbols), Some("xx".to_string()));
    assert_eq!(
        creator.variable_diagnostics(&symbols),
        vec![Diagnostic::UnresolvedPlaceholder("lower".to_string())]
    );
}

#[test]
fn names_are_trimmed_of_spaces_only() {
    let creator = Creator::init("{  A B  }{\tC }", "{", "}");
    assert_eq!(
        creator.token_list(),
        &vec![
            literal(""),
            placeholder("A B"),
            literal(""),
            placeholder("\tC")
        ]
    );
}

#[test]
fn adjacent_placeholders_have_empty_literals_between() {
    let creator = Creator::init("{A}{B}", "{", "}");
    assert_eq!(
        creator.token_list(),
        &vec![literal(""), placeholder("A"), literal(""), placeholder("B")]
    );
}

#[test]
fn empty_text_has_no_tokens() {
    let creator = Creator::init("", "{", "}");
    assert!(creator.token_list().is_empty());
    assert_eq!(creator.process_variables(&SymbolTable::new()), Some(String::new()));
}

#[test]
fn text_without_markers_is_one_literal() {
    let creator = Creator::init("plain } text", "{", "}");
    assert_eq!(creator.token_list(), &vec![literal("plain } text")]);
}

#[test]
fn markers_of_several_characters() {
    let creator = Creator::init("a<<x>>b<<y", "<<", ">>");
    assert_eq!(
        creator.token_list(),
        &vec![literal("a"), placeholder("x"), literal("b"), literal("<<y")]
    );
}

#[test]
fn the_end_marker_is_sought_behind_the_start_marker() {
    let creator = Creator::init("a%NAME%b", "%", "%");
    assert_eq!(
        creator.token_list(),
        &vec![literal("a"), placeholder("NAME"), literal("b")]
    );
}

#[test]
fn the_lexer_hands_out_one_token_at_a_time() {
    let mut lexer = VariableIterator::new("x{y}", "{", "}");
    assert_eq!(lexer.next(), Some(literal("x")));
    assert_eq!(lexer.next(), Some(placeholder("y")));
    assert_eq!(lexer.next(), None);
    assert_eq!(lexer.next(), None);
    let mut lexer = VariableIterator::new("x{y}z", "{", "}");
    assert_eq!(lexer.next(), Some(literal("x")));
    assert_eq!(lexer.collect(), vec![placeholder("y"), literal("z")]);
    assert_eq!(lexer.next(), None);
}

#[test]
fn a_token_list_serves_several_passes() {
    let creator = Creator::init("{red}x", "{", "}");
    let colors = colormap();
    assert_eq!(
        creator.process_variables(&colors),
        Some("\x1b[31mx".to_string())
    );
    assert_eq!(creator.process_case(0), Some("REDx".to_string()));
    assert_eq!(creator.process_case(1), Some("redx".to_string()));
    assert_eq!(
        creator.process_variables(&colors),
        Some("\x1b[31mx".to_string())
    );
}

#[test]
fn colour_symbols() {
    let colors = colormap();
    assert_eq!(colors.get("RED"), Some(&"\x1b[31m".to_string()));
    assert_eq!(colors.get("INVISIBLE"), Some(&"\x1b[8m".to_string()));
    assert_eq!(colors.get("R"), Some(&"\x1b[7m".to_string()));
    assert_eq!(colors.get("B"), Some(&"\x1b[1m".to_string()));
    assert_eq!(colors.get("LIGHT_GRAY"), Some(&"\x1b[97m".to_string()));
    assert_eq!(colors.get("red"), None);
    assert!(colors.contains("I"));
    assert!(!colors.contains("HIDDEN"));
}

#[test]
fn a_symbol_given_twice_keeps_the_later_text() {
    let mut symbols = SymbolTable::new();
    symbols.insert("A", "1");
    symbols.insert("B", "2");
    symbols.insert("A", "3");
    assert_eq!(symbols.get("A"), Some(&"3".to_string()));
    assert_eq!(symbols.get("B"), Some(&"2".to_string()));
}
