use raven::plan_with;
use raven::BuildError;
use raven::Config;
use raven::FileRule;

fn site_config() -> Config {
    let mut config = Config::empty();
    config.set_file_rule("**/*", FileRule::Copy).unwrap();
    config.set_file_rule("**/*.hat", FileRule::Transpile).unwrap();
    config.set_file_rule("vars/**/*", FileRule::Ignore).unwrap();
    config
}

fn paths(v: &[&str]) -> Vec<String> {
    v.iter().map(|s| s.to_string()).collect()
}

#[test]
fn plan_routes_each_file_by_its_rule() {
    let config = site_config();
    let inputs = paths(&["in/index.hat", "in/css/site.css", "in/vars/site.toml"]);
    let plan = plan_with(&config, &inputs).unwrap();

    assert_eq!(plan.len(), 2);
    assert_eq!(plan[0].input, "in/index.hat");
    assert_eq!(plan[0].output, "out/index.html");
    assert_eq!(plan[0].rule, FileRule::Transpile);
    assert_eq!(plan[1].input, "in/css/site.css");
    assert_eq!(plan[1].output, "out/css/site.css");
    assert_eq!(plan[1].rule, FileRule::Copy);
}

#[test]
fn removed_input_leaves_no_planned_artifact() {
    let config = site_config();

    let first_run = paths(&["in/index.hat", "in/about.hat", "in/logo.png"]);
    let first_plan = plan_with(&config, &first_run).unwrap();
    assert!(first_plan.iter().any(|e| e.output == "out/about.html"));

    let second_run = paths(&["in/index.hat", "in/logo.png"]);
    let second_plan = plan_with(&config, &second_run).unwrap();
    assert!(!second_plan.iter().any(|e| e.output == "out/about.html"));
    assert!(!second_plan.iter().any(|e| e.input == "in/about.hat"));
    assert_eq!(second_plan.len(), 2);
}

#[test]
fn plan_rejects_a_stray_input_path() {
    let config = site_config();
    let inputs = paths(&["in/fine.hat", "outside/bad.hat"]);
    match plan_with(&config, &inputs) {
        Err(BuildError::Path { path, .. }) => assert_eq!(path, "outside/bad.hat"),
        other => panic!("expected a path error, got {:?}", other),
    }
}

#[test]
fn plan_keeps_the_source_extension_of_copied_files() {
    let config = site_config();
    let inputs = paths(&["in/data/readme.txt"]);
    let plan = plan_with(&config, &inputs).unwrap();
    assert_eq!(plan.len(), 1);
    assert_eq!(plan[0].output, "out/data/readme.txt");
}

#[test]
fn every_transpiled_output_ends_in_html() {
    let config = site_config();
    let inputs = paths(&["in/a.hat", "in/deep/b.hat", "in/c.txt"]);
    let plan = plan_with(&config, &inputs).unwrap();
    for entry in &plan {
        if entry.rule == FileRule::Transpile {
            assert!(entry.output.ends_with(".html"));
        }
    }
    assert_eq!(
        plan.iter().filter(|e| e.rule == FileRule::Transpile).count(),
        2
    );
}

#[test]
fn empty_enumeration_plans_nothing() {
    let config = site_config();
    let plan = plan_with(&config, &Vec::new()).unwrap();
    assert!(plan.is_empty());
}
