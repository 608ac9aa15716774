use detective::Config;
use detective::ParsingRules;
use detective::effective_targets;

fn names(list: &[&str]) -> Vec<String> {
    list.iter().map(|n| n.to_string()).collect()
}

#[test]
fn default_rules_scan_main_c() {
    let rules = ParsingRules::default();
    assert_eq!(rules.filenames, vec!["main.c".to_string()]);
}

#[test]
fn configured_filenames_are_used_as_given() {
    let config = Config {
        rules: Some(ParsingRules { filenames: names(&["main.c", "Cargo.toml", "dep.h"]) }),
    };
    let targets = effective_targets(&config, &None);
    assert_eq!(targets.len(), 3);
    assert_eq!(targets, names(&["main.c", "Cargo.toml", "dep.h"]));
}

#[test]
fn empty_configured_set_falls_back_to_the_default() {
    let config = Config { rules: Some(ParsingRules { filenames: Vec::new() }) };
    let targets = effective_targets(&config, &None);
    assert_eq!(targets, vec!["main.c".to_string()]);
}

#[test]
fn absent_rules_fall_back_to_the_default() {
    let config = Config::default();
    assert!(config.rules.is_none());
    let targets = effective_targets(&config, &None);
    assert_eq!(targets, vec!["main.c".to_string()]);
}

#[test]
fn command_line_override_replaces_the_whole_set() {
    let config = Config {
        rules: Some(ParsingRules { filenames: names(&["main.c", "lib.c"]) }),
    };
    let targets = effective_targets(&config, &Some("app.rs".to_string()));
    assert_eq!(targets, vec!["app.rs".to_string()]);
}
