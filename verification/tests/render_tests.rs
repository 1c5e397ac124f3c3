use rawk::project::{
    is_template_variable_error, project_context, project_description, project_slug, python_target,
};
use rawk::render::{render_template, ContextValue, RenderContext};

fn string_of(ctx: &RenderContext, key: &str) -> Option<String> {
    match ctx.get(key) {
        Some(ContextValue::Str(s)) => Some(s.clone()),
        _ => None,
    }
}

#[test]
fn variable_reads_back_and_is_replaced() {
    let mut ctx = RenderContext::empty();
    assert!(ctx.get("a").is_none());
    ctx.add_variable("a".to_string(), ContextValue::Str("one".to_string()));
    ctx.add_variable("b".to_string(), ContextValue::Bool(true));
    assert_eq!(string_of(&ctx, "a"), Some("one".to_string()));
    ctx.add_variable("a".to_string(), ContextValue::Str("two".to_string()));
    assert_eq!(string_of(&ctx, "a"), Some("two".to_string()));
    assert!(matches!(ctx.get("b"), Some(ContextValue::Bool(true))));
}

#[test]
fn new_context_binds_project_fields() {
    let ctx = RenderContext::new(
        "My ML Project".to_string(),
        "my-ml-project".to_string(),
        "A simple ML project".to_string(),
        "Dr. Saad".to_string(),
        "saad@example.com".to_string(),
    );
    assert_eq!(string_of(&ctx, "project_name"), Some("My ML Project".to_string()));
    assert_eq!(string_of(&ctx, "project_slug"), Some("my-ml-project".to_string()));
    assert_eq!(string_of(&ctx, "description"), Some("A simple ML project".to_string()));
    assert_eq!(string_of(&ctx, "author_name"), Some("Dr. Saad".to_string()));
    assert_eq!(string_of(&ctx, "author_email"), Some("saad@example.com".to_string()));
}

#[test]
fn render_substitutes_variables() {
    let mut ctx = RenderContext::empty();
    ctx.add_variable("project_name".to_string(), ContextValue::Str("Demo".to_string()));
    ctx.add_variable("use_docker".to_string(), ContextValue::Bool(true));
    let out = render_template("Hello {{ project_name }}!{% if use_docker %} docker{% endif %}", &ctx)
        .unwrap();
    assert_eq!(out, "Hello Demo! docker");
}

#[test]
fn render_reports_syntax_errors() {
    let ctx = RenderContext::empty();
    assert!(render_template("{% if %}", &ctx).is_err());
}

#[test]
fn slug_lowercases_and_dashes_spaces() {
    assert_eq!(project_slug("My ML Project"), "my-ml-project");
    assert_eq!(project_slug("already-fine"), "already-fine");
    assert!(!project_slug("A B  C").contains(' '));
}

#[test]
fn description_and_target() {
    assert_eq!(project_description("simple ML"), "A simple ML project");
    assert_eq!(python_target("3.12"), "py312");
    assert_eq!(python_target("3"), "py3");
}

#[test]
fn project_context_holds_defaults() {
    let ctx = project_context("My Project", "demo");
    assert_eq!(string_of(&ctx, "project_slug"), Some("my-project".to_string()));
    assert_eq!(string_of(&ctx, "description"), Some("A demo project".to_string()));
    assert_eq!(string_of(&ctx, "author_name"), Some("Your Name".to_string()));
    assert_eq!(string_of(&ctx, "author_email"), Some("your.email@example.com".to_string()));
    assert_eq!(string_of(&ctx, "python_version"), Some("3.12".to_string()));
    assert_eq!(string_of(&ctx, "python_target"), Some("py312".to_string()));
    assert_eq!(string_of(&ctx, "package_manager"), Some("uv".to_string()));
    assert_eq!(string_of(&ctx, "model_type"), Some("classification".to_string()));
    assert_eq!(string_of(&ctx, "dataset_source"), Some("local".to_string()));
    assert_eq!(string_of(&ctx, "ci_cd"), Some("github".to_string()));
    assert_eq!(string_of(&ctx, "license"), Some("MIT".to_string()));
    for flag in ["use_wandb", "use_hydra", "use_marimo", "use_docker", "use_precommit", "init_git"] {
        assert!(matches!(ctx.get(flag), Some(ContextValue::Bool(true))));
    }
}

#[test]
fn project_context_renders() {
    let ctx = project_context("My Project", "demo");
    let out = render_template("{{ project_slug }} {{ python_target }}", &ctx).unwrap();
    assert_eq!(out, "my-project py312");
}

#[test]
fn variable_errors_are_recognised() {
    assert!(is_template_variable_error("undefined value (in template:1)"));
    assert!(is_template_variable_error("unknown method: string has no method named replace"));
    assert!(!is_template_variable_error("syntax error: unexpected end of input"));
}
