use raven::BuildError;
use raven::Builtin;
use raven::Context;
use raven::Value;

fn lookup_str(ctx: &Context, name: &str) -> Option<String> {
    match ctx.lookup(name) {
        Some(Value::Str(s)) => Some(s.clone()),
        _ => None,
    }
}

#[test]
fn binding_in_pushed_scope_is_discarded_after_pop() {
    let mut ctx = Context::new();
    ctx.set("root", Value::Str("in".to_string()));

    ctx.push_scope();
    ctx.set("ephemeral", Value::Str("only here".to_string()));
    assert_eq!(lookup_str(&ctx, "ephemeral").as_deref(), Some("only here"));
    assert_eq!(lookup_str(&ctx, "root").as_deref(), Some("in"));
    ctx.pop_scope();

    assert!(ctx.lookup("ephemeral").is_none());
    assert_eq!(lookup_str(&ctx, "root").as_deref(), Some("in"));
}

#[test]
fn sibling_scopes_are_isolated() {
    let mut ctx = Context::new();

    ctx.push_scope();
    ctx.set("per-call", Value::Str("first".to_string()));
    ctx.pop_scope();

    ctx.push_scope();
    assert!(ctx.lookup("per-call").is_none());
    ctx.set("per-call", Value::Str("second".to_string()));
    assert_eq!(lookup_str(&ctx, "per-call").as_deref(), Some("second"));
    ctx.pop_scope();

    assert!(ctx.lookup("per-call").is_none());
}

#[test]
fn inner_scope_shadows_outer_binding_until_popped() {
    let mut ctx = Context::new();
    ctx.set("dir", Value::Str("base".to_string()));
    ctx.push_scope();
    ctx.set("dir", Value::Str("shadow".to_string()));
    assert_eq!(lookup_str(&ctx, "dir").as_deref(), Some("shadow"));
    ctx.pop_scope();
    assert_eq!(lookup_str(&ctx, "dir").as_deref(), Some("base"));
}

#[test]
fn later_binding_wins_within_a_scope() {
    let mut ctx = Context::new();
    ctx.set("k", Value::Str("old".to_string()));
    ctx.set("k", Value::Str("new".to_string()));
    assert_eq!(lookup_str(&ctx, "k").as_deref(), Some("new"));
}

#[test]
fn require_string_reports_missing_and_mistyped_bindings() {
    let mut ctx = Context::new();
    ctx.set("markdown", Value::Str("md".to_string()));
    ctx.set("content", Value::Helper(Builtin::Content));

    assert_eq!(ctx.require_string("markdown").unwrap(), "md");

    match ctx.require_string("absent") {
        Err(BuildError::Config { path, .. }) => assert_eq!(path, "absent"),
        other => panic!("expected a configuration error, got {:?}", other),
    }
    match ctx.require_string("content") {
        Err(BuildError::Config { path, .. }) => assert_eq!(path, "content"),
        other => panic!("expected a configuration error, got {:?}", other),
    }
}

#[test]
fn string_bindings_flatten_in_scope_order() {
    let mut ctx = Context::new();
    ctx.set("a", Value::Str("1".to_string()));
    ctx.set("f", Value::Helper(Builtin::Load));
    ctx.push_scope();
    ctx.set("b", Value::Str("2".to_string()));
    let flat = ctx.string_bindings();
    assert_eq!(flat.len(), 2);
    assert_eq!(flat[0].0, "a");
    assert_eq!(flat[0].1, "1");
    assert_eq!(flat[1].0, "b");
    assert_eq!(flat[1].1, "2");
}

#[test]
fn helper_bindings_flatten_in_scope_order() {
    let mut ctx = Context::new();
    ctx.set("content", Value::Helper(Builtin::Content));
    ctx.set("dir", Value::Str("md".to_string()));
    ctx.set("load", Value::Helper(Builtin::Load));
    let helpers = ctx.helper_bindings();
    assert_eq!(helpers.len(), 2);
    assert_eq!(helpers[0].0, "content");
    assert_eq!(helpers[0].1, Builtin::Content);
    assert_eq!(helpers[1].0, "load");
    assert_eq!(helpers[1].1, Builtin::Load);
}
