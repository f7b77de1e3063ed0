use lightfetch::config::default::DEFAULT;
use lightfetch::config::document::ConfigLookupError;
use lightfetch::config::cache::fake_hash;
use lightfetch::config::helio::{valid_filter_names, FilterType, Helio};

#[test]
fn the_default_configuration_is_read() {
    let mut config = Helio::new();
    assert_eq!(config.load_text(DEFAULT), Ok(()));
    assert_eq!(config.get_bool("GENERAL", "auto center"), Ok(true));
    assert_eq!(config.get_bool("GENERAL", "^ case sensitive"), Ok(false));
    assert_eq!(config.get_str("GENERAL", "^ prefix"), Ok("{".to_string()));
    assert_eq!(config.get_str("GENERAL", "^ suffix"), Ok("}".to_string()));
    assert_eq!(
        config.get_str("GENERAL", "^ case prefix"),
        Ok("[{letter}]".to_string())
    );
    assert_eq!(config.get_str("FETCH", "gap"), Ok("   ".to_string()));
    assert_eq!(config.get_int("FETCH", "left padding"), Ok(0));
    assert_eq!(config.get_str("ART", "mode"), Ok("image".to_string()));
    assert_eq!(
        config.get_filter("IMAGE", "filter"),
        Ok(FilterType::Gaussian)
    );
    assert_eq!(config.get_int("IMAGE", "size"), Ok(15));
    assert_eq!(
        config.get_str("CACHE", "^ path"),
        Ok("~/.config/lightfetch/cache".to_string())
    );
    assert_eq!(
        config.get_str("ADVANCED MODE", "x"),
        Err(ConfigLookupError::SectionNotFound)
    );
    assert_eq!(
        config.get_str("default", "x"),
        Err(ConfigLookupError::SectionNotFound)
    );
}

#[test]
fn the_default_fetch_text_spans_lines() {
    let mut config = Helio::new();
    config.load_text(DEFAULT).unwrap();
    let text = config.get_str("FETCH", "text").unwrap();
    let lines: Vec<&str> = text.split('\n').collect();
    assert_eq!(lines.len(), 12);
    assert_eq!(
        lines[0],
        "{white}╭───────────────────────────────────────────╮{ignore}"
    );
    assert_eq!(
        lines[1],
        "│ {blue}{USERNAME}{gray}@{white}{HOSTNAME} {fill} │"
    );
    assert_eq!(
        lines[11],
        "╰───────────────────────────────────────────╯{ignore}"
    );
}

#[test]
fn the_filter_names_are_the_ones_that_are_read() {
    let names = valid_filter_names();
    assert_eq!(
        names,
        vec!["Nearest", "Gaussian", "Triangle", "Catmull", "Lanczos"]
    );
    for name in names {
        let mut config = Helio::new();
        config.set_str("s", "k", Some(name));
        assert!(config.get_filter("s", "k").is_ok());
    }
}

#[test]
fn cache_hashes() {
    assert_eq!(fake_hash(1234, 15, "Gaussian"), "123415Gaussian");
    assert_eq!(fake_hash(0, 0, ""), "00");
    assert_eq!(
        fake_hash(u64::MAX, u32::MAX, "x"),
        format!("{}{}x", u64::MAX, u32::MAX)
    );
}
