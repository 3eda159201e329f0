use raven::BuildError;
use raven::Config;
use raven::FileRule;

#[test]
fn later_registration_wins() {
    let mut config = Config::empty();
    config.set_file_rule("**/*", FileRule::Copy).unwrap();
    config.set_file_rule("**/*.tpl", FileRule::Transpile).unwrap();
    assert_eq!(config.resolve("a/b.tpl"), FileRule::Transpile);
    assert_eq!(config.resolve("a/b.txt"), FileRule::Copy);
}

#[test]
fn unmatched_path_defaults_to_ignore() {
    let config = Config::empty();
    assert_eq!(config.resolve("anything/at/all"), FileRule::Ignore);

    let mut narrow = Config::empty();
    narrow.set_file_rule("*.md", FileRule::Copy).unwrap();
    assert_eq!(narrow.resolve("notes.txt"), FileRule::Ignore);
    assert_eq!(narrow.resolve("notes.md"), FileRule::Copy);
}

#[test]
fn malformed_pattern_is_refused_at_registration() {
    let mut config = Config::empty();
    let before = config.file_rules().len();
    let result = config.set_file_rule("a***b", FileRule::Copy);
    match result {
        Err(BuildError::Config { path, .. }) => assert_eq!(path, "a***b"),
        other => panic!("expected a configuration error, got {:?}", other),
    }
    assert_eq!(config.file_rules().len(), before);
}

#[test]
fn registration_keeps_order() {
    let mut config = Config::empty();
    config.set_file_rule("**/*", FileRule::Copy).unwrap();
    config.set_file_rule("vars/**/*", FileRule::Ignore).unwrap();
    let rules = config.file_rules();
    assert_eq!(rules.len(), 2);
    assert_eq!(rules[0].0, "**/*");
    assert_eq!(rules[0].1, FileRule::Copy);
    assert_eq!(rules[1].0, "vars/**/*");
    assert_eq!(rules[1].1, FileRule::Ignore);
}

#[test]
fn default_config_rules() {
    let config = Config::default();
    assert_eq!(config.input_dir, "in");
    assert_eq!(config.output_dir, "out");
    assert_eq!(config.file_rules().len(), 5);
    assert_eq!(config.resolve("index.hat"), FileRule::Transpile);
    assert_eq!(config.resolve("style/site.css"), FileRule::Copy);
    assert_eq!(config.resolve("md/page.md"), FileRule::Ignore);
    assert_eq!(config.resolve("tmpl/nav.hat"), FileRule::Ignore);
    assert_eq!(config.resolve("vars/site.toml"), FileRule::Ignore);
}

#[test]
fn new_equals_default_shape() {
    let a = Config::new();
    let b = Config::default();
    assert_eq!(a.file_rules(), b.file_rules());
    assert_eq!(a.input_dir, b.input_dir);
    assert_eq!(a.output_dir, b.output_dir);
}
