use lightfetch::args::{label_of, Args, ArgsError, Argument};
use lightfetch::config::cache::{Cache, Image};
use lightfetch::config::helio::Helio;
use lightfetch::modules::module::FetchModule;
use lightfetch::modules::FetchModules;

fn declared() -> Args {
    let mut args = Args::new("prog")
        .set_desc("A tool.")
        .set_author("@someone")
        .set_name("tool");
    args.add("--version", 0, "Prints the version.");
    args.add("--welcome", 0, "Shows the welcome message.");
    args.add_arg(
        Argument::new()
            .alias("--config")
            .alias("-c")
            .alias("--c")
            .count(1)
            .help("A custom config file."),
    );
    args
}

#[test]
fn arguments_are_numbered_from_one() {
    let mut args = Args::new("prog");
    assert_eq!(args.add("--version", 0, "Prints the version."), 1);
    let id = args.add_arg(Argument::new().alias("--config").alias("-c").alias("-c").count(1));
    assert_eq!(id, 2);
    assert_eq!(args.add("--version", 2, "Again."), 3);
}

#[test]
fn labels() {
    assert_eq!(label_of(&Argument::new()), "");
    assert_eq!(label_of(&Argument::new().alias("-a")), "-a");
    assert_eq!(label_of(&Argument::new().alias("-a").alias("-a")), "-a");
    assert_eq!(
        label_of(&Argument::new().alias("--all").alias("-a").count(12)),
        "--all | -a [12 argument/s]"
    );
}

#[test]
fn help_text() {
    let args = declared();
    assert!(args.can_create_help());
    let width = "--config | -c | --c [1 argument/s]".len() + 4;
    let expected = format!(
        "tool \x1b[90m~\x1b[0m A tool.\n\
         \x1b[0mAuthor \x1b[90m~ \x1b[0m@someone\n\
         \x1b[0mUsage \x1b[90m~\n    \x1b[32m$ \x1b[0mtool -[cmd] [arg/s...]\n\
         \x1b[0mArguments \x1b[90m~\n\
         \x20   {:<width$} Prints the version.\n\
         \x20   {:<width$} Shows the welcome message.\n\
         \x20   {:<width$} A custom config file.\n\
         \x20   {:<width$} Prints this help message.",
        "--version", "--welcome", "--config | -c | --c [1 argument/s]", "--help, -h",
    );
    assert_eq!(args.create_help(), expected);
}

#[test]
fn help_text_lists_an_argument_once() {
    let mut args = Args::new("p");
    args.add_arg(Argument::new().alias("--first").alias("-f").help("one"));
    args.add("--second", 0, "two");
    let help = args.create_help();
    assert_eq!(help.matches("--first | -f").count(), 1);
    assert!(help.find("--first").unwrap() < help.find("--second").unwrap());
}

#[test]
fn help_text_needs_room_for_the_help_argument() {
    let mut args = Args::new("p");
    assert!(!args.can_create_help());
    args.add("-c", 0, "short");
    assert!(!args.can_create_help());
    args.add("--long", 0, "long enough");
    assert!(args.can_create_help());
}

#[test]
fn parsing_finds_arguments_and_values() {
    let args = declared();
    let found = args.parse(vec!["tool", "--config", "path", "--version"]).unwrap();
    assert!(found.has("--config"));
    assert!(found.has("--version"));
    assert!(!found.has("--welcome"));
    assert!(!found.has("path"));
    assert_eq!(found.get("--config").unwrap().val(), &vec!["path".to_string()]);
    assert!(found.get("--version").unwrap().val().is_empty());
    assert!(found.get("-c").is_none());
}

#[test]
fn parsing_by_another_name() {
    let args = declared();
    let found = args.parse(vec!["-c", "x"]).unwrap();
    assert!(found.has("-c"));
    assert!(!found.has("--config"));
    assert_eq!(found.get("-c").unwrap().val(), &vec!["x".to_string()]);
}

#[test]
fn parsing_nothing() {
    let args = declared();
    let found = args.parse(Vec::new()).unwrap();
    assert!(!found.has("--version"));
    let found = args.parse(vec!["unknown", "--other"]).unwrap();
    assert!(!found.has("unknown"));
}

#[test]
fn the_first_argument_stops_at_a_dash() {
    let args = declared();
    assert_eq!(
        args.parse(vec!["--config", "-x"]).err(),
        Some(ArgsError::MissingValues {
            name: "--config".to_string(),
            required: 1,
            provided: 0
        })
    );
    assert_eq!(
        args.parse(vec!["--c"]).err(),
        Some(ArgsError::MissingValues {
            name: "--config".to_string(),
            required: 1,
            provided: 0
        })
    );
}

#[test]
fn a_later_argument_stops_at_a_declared_name() {
    let args = declared();
    let found = args.parse(vec!["--version", "--config", "-x"]).unwrap();
    assert_eq!(found.get("--config").unwrap().val(), &vec!["-x".to_string()]);
    assert_eq!(
        args.parse(vec!["--version", "--config", "--welcome"]).err(),
        Some(ArgsError::MissingValues {
            name: "--config".to_string(),
            required: 1,
            provided: 0
        })
    );
}

#[test]
fn several_values() {
    let mut args = Args::new("p");
    args.add("--pair", 2, "two values");
    let found = args.parse(vec!["--pair", "a", "b", "c"]).unwrap();
    assert_eq!(
        found.get("--pair").unwrap().val(),
        &vec!["a".to_string(), "b".to_string()]
    );
    assert_eq!(
        args.parse(vec!["--pair", "a"]).err(),
        Some(ArgsError::MissingValues {
            name: "--pair".to_string(),
            required: 2,
            provided: 1
        })
    );
}

#[test]
fn a_value_is_looked_at_as_a_name_too() {
    let mut args = Args::new("p");
    args.add("--a", 1, "");
    args.add("b", 0, "");
    let found = args.parse(vec!["--a", "b"]).unwrap();
    assert_eq!(found.get("--a").unwrap().val(), &vec!["b".to_string()]);
    assert!(found.has("b"));
}

#[test]
fn asking_for_help_ends_the_parsing() {
    let args = declared();
    assert_eq!(args.parse(vec!["--help"]).err(), Some(ArgsError::HelpRequested));
    assert_eq!(
        args.parse(vec!["--version", "-h", "--config"]).err(),
        Some(ArgsError::HelpRequested)
    );
    assert_eq!(
        args.parse(vec!["--config", "--help"]).err(),
        Some(ArgsError::MissingValues {
            name: "--config".to_string(),
            required: 1,
            provided: 0
        })
    );
}

#[test]
fn a_name_declared_again_takes_the_later_argument() {
    let mut args = Args::new("p");
    args.add("--x", 0, "first");
    args.add("--x", 1, "second");
    assert_eq!(
        args.parse(vec!["--x"]).err(),
        Some(ArgsError::MissingValues {
            name: "--x".to_string(),
            required: 1,
            provided: 0
        })
    );
}

#[test]
fn modules_are_kept_in_order() {
    let mut modules = FetchModules::new();
    assert_eq!(modules.get_module_count(), 0);
    modules.add_module(FetchModule::new("one".to_string()));
    modules.add_module(FetchModule::new("two".to_string()));
    assert_eq!(modules.get_module_count(), 2);
    assert_eq!(modules.get_modules()[0].get_string(), "one");
    assert_eq!(modules.get_modules()[1].get_string(), "two");
    assert!(modules.get_modules()[0] == FetchModule::new("one".to_string()));
}

#[test]
fn images_are_found_by_their_hash() {
    let found = vec![
        Image::new("first".to_string(), "h1".to_string()),
        Image::new("second".to_string(), "h2".to_string()),
        Image::new("third".to_string(), "h1".to_string()),
    ];
    let cache = Cache::of(Helio::new(), found);
    assert_eq!(cache.size, 3);
    assert!(cache.contains("h1".to_string()));
    assert!(!cache.contains("h3".to_string()));
    assert_eq!(cache.get("h1".to_string()).unwrap().get_data(), "third");
    assert_eq!(cache.get("h2".to_string()).unwrap().get_data(), "second");
    assert!(cache.get("nothing".to_string()).is_none());
}
