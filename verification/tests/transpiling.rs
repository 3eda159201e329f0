use raven::builtin::AssetCopier;
use raven::builtin::HatterTranspiler;
use raven::builtin::MarkdownTranspiler;
use raven::builtin::TemplateTranspiler;
use raven::builtin::TomlTranspiler;
use raven::BuildError;
use raven::Builtin;
use raven::Bytes;
use raven::Generator;
use raven::Value;

fn record(path: &str, raw: &[u8]) -> Bytes {
    Bytes { path: path.to_string(), raw: raw.to_vec() }
}

fn generator_with(records: Vec<Bytes>) -> Generator {
    let entries = records.into_iter().map(Ok).collect::<Vec<_>>();
    Generator::from_entries("in".to_string(), entries).unwrap()
}

#[test]
fn transpiled_record_gets_the_target_extension() {
    let mut generator = generator_with(vec![
        record("in/index.hat", b"<p> Welcome"),
        record("in/style.css", b"body {}"),
    ]);
    generator.apply(HatterTranspiler::new()).unwrap();
    assert_eq!(generator.data.len(), 2);
    assert_eq!(generator.data[0].path, "in/index.html");
    assert_eq!(generator.data[1].path, "in/style.css");
    assert_eq!(generator.data[1].raw, b"body {}");
}

#[test]
fn transpiled_content_is_the_rendered_document() {
    let mut generator = generator_with(vec![record("in/index.hat", b"<p> Welcome")]);
    generator.apply(HatterTranspiler::new()).unwrap();

    let mut env = hatter::Env::new();
    let expected = env.render("<p> Welcome").unwrap();
    assert_eq!(generator.data[0].raw, expected.as_bytes());
    assert_ne!(generator.data[0].raw, b"<p> Welcome");
}

#[test]
fn transpiling_sees_the_context_string_bindings() {
    let mut generator = generator_with(vec![record("in/page.hat", b"<p> greeting")]);
    generator.env.set("greeting", Value::Str("hello".to_string()));
    generator.apply(HatterTranspiler::new()).unwrap();

    let mut env = hatter::Env::new();
    env.set("greeting", "hello");
    let expected = env.render("<p> greeting").unwrap();
    assert_eq!(generator.data[0].raw, expected.as_bytes());
}

#[test]
fn broken_template_aborts_with_a_transform_error() {
    let mut generator = generator_with(vec![
        record("in/bad.hat", b"<p> if for while"),
        record("in/never.hat", b"<p> fine"),
    ]);
    match generator.apply(HatterTranspiler::new()) {
        Err(BuildError::Transform { path, .. }) => assert_eq!(path, "in/bad.hat"),
        other => panic!("expected a transform error, got {:?}", other),
    }
    assert_eq!(generator.data[0].path, "in/bad.hat");
    assert_eq!(generator.data[1].path, "in/never.hat");
}

#[test]
fn invalid_utf8_template_aborts_with_a_transform_error() {
    let mut generator = generator_with(vec![record("in/bin.hat", &[0xff, 0xfe, 0x00])]);
    match generator.apply(HatterTranspiler::new()) {
        Err(BuildError::Transform { path, .. }) => assert_eq!(path, "in/bin.hat"),
        other => panic!("expected a transform error, got {:?}", other),
    }
}

#[test]
fn markdown_transpiler_binds_directory_and_helper() {
    let mut generator = generator_with(vec![]);
    generator.apply(MarkdownTranspiler::source("md")).unwrap();
    assert_eq!(generator.env.require_string("markdown").unwrap(), "md");
    let helpers = generator.env.helper_bindings();
    assert_eq!(helpers.len(), 1);
    assert_eq!(helpers[0].0, "content");
    assert_eq!(helpers[0].1, Builtin::Content);
}

#[test]
fn template_transpiler_binds_directory_and_helper() {
    let mut generator = generator_with(vec![]);
    generator.apply(TemplateTranspiler::source("tmpl")).unwrap();
    assert_eq!(generator.env.require_string("templates").unwrap(), "tmpl");
    let helpers = generator.env.helper_bindings();
    assert_eq!(helpers.len(), 1);
    assert_eq!(helpers[0].1, Builtin::Include);
}

#[test]
fn toml_transpiler_binds_directory_and_helper() {
    let mut generator = generator_with(vec![]);
    generator.apply(TomlTranspiler::source("vars")).unwrap();
    assert_eq!(generator.env.require_string("variables").unwrap(), "vars");
    let helpers = generator.env.helper_bindings();
    assert_eq!(helpers.len(), 1);
    assert_eq!(helpers[0].0, "load");
    assert_eq!(helpers[0].1, Builtin::Load);
}

#[test]
fn asset_copier_projects_a_single_file() {
    let mut copier = AssetCopier::new();
    copier.copy("logo.png", "img/logo.png");
    copier.supply("logo.png", vec![record("logo.png", b"png-bytes")]);

    let mut generator = generator_with(vec![record("in/index.hat", b"<p> hi")]);
    generator.apply(copier).unwrap();

    assert_eq!(generator.data.len(), 2);
    assert_eq!(generator.data[1].path, "in/img/logo.png");
    assert_eq!(generator.data[1].raw, b"png-bytes");
}

#[test]
fn asset_copier_rebases_a_directory_tree() {
    let mut copier = AssetCopier::new();
    copier.copy("shared", "assets");
    copier.supply(
        "shared",
        vec![
            record("shared/a.css", b"a"),
            record("shared/fonts/b.woff", b"b"),
        ],
    );

    let mut generator = generator_with(vec![]);
    generator.apply(copier).unwrap();

    assert_eq!(generator.data.len(), 2);
    assert_eq!(generator.data[0].path, "in/assets/a.css");
    assert_eq!(generator.data[1].path, "in/assets/fonts/b.woff");
    assert_eq!(generator.data[1].raw, b"b");
}

#[test]
fn asset_copier_replaces_a_remapped_source() {
    let mut copier = AssetCopier::new();
    copier.copy("logo.png", "old/logo.png");
    copier.copy("logo.png", "new/logo.png");
    copier.supply("logo.png", vec![record("logo.png", b"png")]);

    let mut generator = generator_with(vec![]);
    generator.apply(copier).unwrap();

    assert_eq!(generator.data.len(), 1);
    assert_eq!(generator.data[0].path, "in/new/logo.png");
}

#[test]
fn asset_copier_fails_on_a_record_outside_its_root() {
    let mut copier = AssetCopier::new();
    copier.copy("shared", "assets");
    copier.supply(
        "shared",
        vec![record("shared/ok.css", b"a"), record("other/bad.css", b"b")],
    );

    let mut generator = generator_with(vec![]);
    match generator.apply(copier) {
        Err(BuildError::Path { path, .. }) => assert_eq!(path, "other/bad.css"),
        other => panic!("expected a path error, got {:?}", other),
    }
    assert_eq!(generator.data.len(), 0);
}

#[test]
fn asset_copier_fails_when_no_records_were_supplied() {
    let mut copier = AssetCopier::new();
    copier.copy("shared", "assets");

    let mut generator = generator_with(vec![]);
    match generator.apply(copier) {
        Err(BuildError::Io { path, .. }) => assert_eq!(path, "shared"),
        other => panic!("expected an access error, got {:?}", other),
    }
}

#[test]
fn transpiling_leaves_the_context_unchanged() {
    let mut generator = generator_with(vec![record("in/a.hat", b"<p> x")]);
    generator.env.set("keep", Value::Str("me".to_string()));
    generator.apply(HatterTranspiler::new()).unwrap();
    assert_eq!(generator.env.require_string("keep").unwrap(), "me");
    assert_eq!(generator.env.string_bindings().len(), 1);
}
