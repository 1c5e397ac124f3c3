use rawk::template::{
    CategoryEntry, CategoryProbe, DirProbe, PathProbe, Requirements, Template, TemplateConfig,
    TemplateEntry, TemplateError, TemplateMetadata, TemplateWarning, get_templates_dir,
};

fn config(name: &str, description: &str, tags: &[&str]) -> TemplateConfig {
    TemplateConfig {
        template: TemplateMetadata {
            name: name.to_string(),
            description: description.to_string(),
            version: "0.1.0".to_string(),
            category: "ml".to_string(),
            tags: tags.iter().map(|t| t.to_string()).collect(),
        },
        requirements: Requirements::default(),
        questions: Vec::new(),
    }
}

fn good_probe() -> PathProbe {
    PathProbe { exists: true, is_dir: true, has_config: true }
}

fn template(category: &str, name: &str, description: &str, tags: &[&str]) -> Template {
    let path = format!("templates/{}/{}", category, name);
    Template::from_path(path, good_probe(), Ok(config(name, description, tags))).unwrap()
}

#[test]
fn from_path_names_template_after_directory_and_parent() {
    let t = Template::from_path(
        "templates/ml/simple-ml".to_string(),
        good_probe(),
        Ok(config("Simple", "A simple ML project", &["pytorch"])),
    )
    .unwrap();
    assert_eq!(t.name, "simple-ml");
    assert_eq!(t.category, "ml");
    assert_eq!(t.path, "templates/ml/simple-ml");
    assert_eq!(t.config.template.description, "A simple ML project");
}

#[test]
fn from_path_without_parent_is_in_category_other() {
    let t = Template::from_path("simple-ml".to_string(), good_probe(), Ok(config("s", "d", &[])))
        .unwrap();
    assert_eq!(t.name, "simple-ml");
    assert_eq!(t.category, "other");
}

#[test]
fn from_path_errors_in_order() {
    let missing = Template::from_path(
        "nowhere".to_string(),
        PathProbe { exists: false, is_dir: false, has_config: false },
        Err("ignored".to_string()),
    );
    match missing {
        Err(e) => assert_eq!(e.message(), "Template path does not exist: nowhere"),
        Ok(_) => panic!("expected an error"),
    }
    let file = Template::from_path(
        "a/file".to_string(),
        PathProbe { exists: true, is_dir: false, has_config: false },
        Ok(config("s", "d", &[])),
    );
    match file {
        Err(e) => assert_eq!(e.message(), "Template path is not a directory: a/file"),
        Ok(_) => panic!("expected an error"),
    }
    let no_config = Template::from_path(
        "a/b".to_string(),
        PathProbe { exists: true, is_dir: true, has_config: false },
        Ok(config("s", "d", &[])),
    );
    match no_config {
        Err(e) => assert_eq!(e.message(), "Template missing rawk.toml configuration: a/b"),
        Ok(_) => panic!("expected an error"),
    }
    let bad_config = Template::from_path(
        "a/b".to_string(),
        good_probe(),
        Err("missing field `name`".to_string()),
    );
    match bad_config {
        Err(TemplateError::InvalidConfig(m)) => assert_eq!(m, "missing field `name`"),
        _ => panic!("expected an invalid configuration"),
    }
    let dotdot = Template::from_path("a/..".to_string(), good_probe(), Ok(config("s", "d", &[])));
    match dotdot {
        Err(e) => assert_eq!(e.message(), "Invalid template path"),
        Ok(_) => panic!("expected an error"),
    }
}

#[test]
fn locate_hierarchical_name_joins_directory() {
    let r = Template::locate("ml/simple-ml", "templates", &Vec::new(), &None).unwrap();
    assert_eq!(r, "templates/ml/simple-ml");
}

#[test]
fn locate_bare_name_takes_first_category_holding_it() {
    let cats = vec![
        CategoryProbe { path: "templates/README.md".to_string(), is_dir: false, holds_template: true },
        CategoryProbe { path: "templates/agents".to_string(), is_dir: true, holds_template: false },
        CategoryProbe { path: "templates/ml".to_string(), is_dir: true, holds_template: true },
        CategoryProbe { path: "templates/llm".to_string(), is_dir: true, holds_template: true },
    ];
    let r = Template::locate("simple-ml", "templates", &cats, &None).unwrap();
    assert_eq!(r, "templates/ml/simple-ml");
}

#[test]
fn locate_bare_name_not_found() {
    let cats = vec![CategoryProbe {
        path: "templates/ml".to_string(),
        is_dir: true,
        holds_template: false,
    }];
    match Template::locate("nothing", "templates", &cats, &None) {
        Err(e) => assert_eq!(e.message(), "Template not found: nothing"),
        Ok(_) => panic!("expected an error"),
    }
    match Template::locate("nothing", "templates", &cats, &Some("permission denied".to_string())) {
        Err(e) => assert_eq!(e.message(), "permission denied"),
        Ok(_) => panic!("expected an error"),
    }
}

#[test]
fn load_resolves_then_reads_template() {
    let cats = vec![CategoryProbe {
        path: "templates/ml".to_string(),
        is_dir: true,
        holds_template: true,
    }];
    let t = Template::load(
        "simple-ml",
        "templates",
        &cats,
        &None,
        good_probe(),
        Ok(config("s", "d", &[])),
    )
    .unwrap();
    assert_eq!(t.name, "simple-ml");
    assert_eq!(t.category, "ml");
    assert_eq!(t.path, "templates/ml/simple-ml");
    let missing = Template::load(
        "ml/none",
        "templates",
        &Vec::new(),
        &None,
        PathProbe { exists: false, is_dir: false, has_config: false },
        Err("no file".to_string()),
    );
    match missing {
        Err(e) => assert_eq!(e.message(), "Template path does not exist: templates/ml/none"),
        Ok(_) => panic!("expected an error"),
    }
}

#[test]
fn templates_dir_priority() {
    let env = Some(DirProbe { path: "/opt/t".to_string(), is_dir: true });
    let exe = Some(DirProbe { path: "/usr/bin/templates".to_string(), is_dir: true });
    assert_eq!(get_templates_dir(env.clone(), true, exe.clone()), "/opt/t");
    let bad_env = Some(DirProbe { path: "/opt/t".to_string(), is_dir: false });
    assert_eq!(get_templates_dir(bad_env.clone(), true, exe.clone()), "templates");
    assert_eq!(get_templates_dir(bad_env.clone(), false, exe.clone()), "/usr/bin/templates");
    let bad_exe = Some(DirProbe { path: "/usr/bin/templates".to_string(), is_dir: false });
    assert_eq!(get_templates_dir(None, false, bad_exe), "templates");
    assert_eq!(get_templates_dir(None, false, None), "templates");
}

#[test]
fn templates_beside_executable() {
    assert_eq!(
        rawk::template::templates_beside("/usr/local/bin/rawk"),
        Some("/usr/local/templates".to_string())
    );
    assert_eq!(rawk::template::templates_beside("/"), None);
    assert_eq!(rawk::template::templates_beside("/rawk"), None);
    assert_eq!(rawk::template::templates_beside("bin/rawk"), Some("templates".to_string()));
}

#[test]
fn validate_checks_config_project_dir_and_readme() {
    let t = template("ml", "simple-ml", "d", &[]);
    assert_eq!(t.config_path(), "templates/ml/simple-ml/rawk.toml");
    assert_eq!(t.project_dir_path(), "templates/ml/simple-ml/{{project_slug}}");
    assert_eq!(t.readme_path(), "templates/ml/simple-ml/README.md");
    match t.validate(false, Ok(config("s", "d", &[])), true, true) {
        Err(e) => assert_eq!(
            e.message(),
            "Template missing rawk.toml configuration: templates/ml/simple-ml"
        ),
        Ok(_) => panic!("expected an error"),
    }
    match t.validate(true, Err("invalid TOML".to_string()), true, true) {
        Err(e) => assert_eq!(e.message(), "invalid TOML"),
        Ok(_) => panic!("expected an error"),
    }
    match t.validate(true, Ok(config("s", "d", &[])), false, true) {
        Err(e) => assert_eq!(
            e.message(),
            "Template missing {{project_slug}} directory: templates/ml/simple-ml"
        ),
        Ok(_) => panic!("expected an error"),
    }
    match t.validate(true, Ok(config("s", "d", &[])), true, false) {
        Ok(Some(w @ TemplateWarning::MissingReadme(_))) => {
            assert_eq!(w.message(), "Template missing README.md: templates/ml/simple-ml")
        }
        _ => panic!("expected a warning"),
    }
    assert!(matches!(t.validate(true, Ok(config("s", "d", &[])), true, true), Ok(None)));
}

fn entry(path: &str, is_dir: bool, ok: bool) -> TemplateEntry {
    TemplateEntry {
        path: path.to_string(),
        is_dir,
        probe: PathProbe { exists: true, is_dir, has_config: ok },
        config: Ok(config("x", "y", &[])),
    }
}

#[test]
fn list_all_skips_files_and_reports_broken_templates() {
    let cats = vec![
        CategoryEntry {
            is_dir: true,
            templates: vec![
                entry("templates/ml/simple-ml", true, true),
                entry("templates/ml/notes.txt", false, false),
                entry("templates/ml/broken", true, false),
            ],
        },
        CategoryEntry { is_dir: false, templates: vec![entry("templates/x/y", true, true)] },
        CategoryEntry { is_dir: true, templates: vec![entry("templates/llm/rag", true, true)] },
    ];
    let listing = Template::list_all(cats);
    let names: Vec<&str> = listing.templates.iter().map(|t| t.name.as_str()).collect();
    assert_eq!(names, vec!["simple-ml", "rag"]);
    assert_eq!(listing.skipped.len(), 1);
    assert_eq!(listing.skipped[0].path, "templates/ml/broken");
    assert_eq!(
        listing.skipped[0].error.message(),
        "Template missing rawk.toml configuration: templates/ml/broken"
    );
    // every template directory is accounted for once
    assert_eq!(listing.templates.len() + listing.skipped.len(), 3);
}

fn sample() -> Vec<Template> {
    vec![
        template("ml", "simple-ml", "A simple ML project", &["pytorch", "Beginner"]),
        template("llm", "rag-app", "Retrieval augmented generation", &["LangChain"]),
        template("agents", "crew", "Multi-agent workflows", &["agents"]),
    ]
}

#[test]
fn find_is_case_insensitive_over_name_description_and_tags() {
    let by_name: Vec<String> =
        Template::find(sample(), "SIMPLE").into_iter().map(|t| t.name).collect();
    assert_eq!(by_name, vec!["simple-ml"]);
    let by_description: Vec<String> =
        Template::find(sample(), "retrieval").into_iter().map(|t| t.name).collect();
    assert_eq!(by_description, vec!["rag-app"]);
    let by_tag: Vec<String> =
        Template::find(sample(), "langchain").into_iter().map(|t| t.name).collect();
    assert_eq!(by_tag, vec!["rag-app"]);
    let by_tag_case: Vec<String> =
        Template::find(sample(), "beginner").into_iter().map(|t| t.name).collect();
    assert_eq!(by_tag_case, vec!["simple-ml"]);
    assert!(Template::find(sample(), "nothing-like-this").is_empty());
}

#[test]
fn find_keeps_order_and_empty_query_keeps_all() {
    let all: Vec<String> = Template::find(sample(), "").into_iter().map(|t| t.name).collect();
    assert_eq!(all, vec!["simple-ml", "rag-app", "crew"]);
    let a: Vec<String> = Template::find(sample(), "a").into_iter().map(|t| t.name).collect();
    assert_eq!(a, vec!["simple-ml", "rag-app", "crew"]);
}

#[test]
fn search_is_idempotent_on_example() {
    let once = Template::find(sample(), "ml");
    let once_names: Vec<String> = once.iter().map(|t| t.name.clone()).collect();
    let twice: Vec<String> = Template::find(once, "ml").into_iter().map(|t| t.name).collect();
    assert_eq!(once_names, twice);
}

#[test]
fn error_messages() {
    assert_eq!(
        TemplateError::NotADirectory("p".to_string()).message(),
        "Template path is not a directory: p"
    );
    assert_eq!(TemplateError::ReadDir("io".to_string()).message(), "io");
    assert_eq!(TemplateError::NotFound("x".to_string()).message(), "Template not found: x");
}

#[test]
fn longer_query_finds_no_more() {
    let short: Vec<String> = Template::find(sample(), "ml").into_iter().map(|t| t.name).collect();
    let long: Vec<String> =
        Template::find(sample(), "simple-ml").into_iter().map(|t| t.name).collect();
    assert_eq!(short, vec!["simple-ml"]);
    assert_eq!(long, vec!["simple-ml"]);
    let a: Vec<String> = Template::find(sample(), "a").into_iter().map(|t| t.name).collect();
    let ag: Vec<String> = Template::find(sample(), "agent").into_iter().map(|t| t.name).collect();
    assert!(ag.iter().all(|n| a.contains(n)));
    assert_eq!(ag, vec!["crew"]);
}

#[test]
fn search_ignores_ascii_case() {
    let upper: Vec<String> =
        Template::find(sample(), "MULTI-AGENT").into_iter().map(|t| t.name).collect();
    let lower: Vec<String> =
        Template::find(sample(), "multi-agent").into_iter().map(|t| t.name).collect();
    assert_eq!(upper, lower);
    assert_eq!(upper, vec!["crew"]);
}

#[test]
fn files_among_templates_change_nothing() {
    let with_files = vec![
        CategoryEntry { is_dir: false, templates: Vec::new() },
        CategoryEntry {
            is_dir: true,
            templates: vec![entry("templates/ml/a.txt", false, true), entry("templates/ml/m", true, true)],
        },
    ];
    let without = vec![CategoryEntry { is_dir: true, templates: vec![entry("templates/ml/m", true, true)] }];
    let a: Vec<String> = Template::list_all(with_files).templates.into_iter().map(|t| t.path).collect();
    let b: Vec<String> = Template::list_all(without).templates.into_iter().map(|t| t.path).collect();
    assert_eq!(a, b);
    assert_eq!(a, vec!["templates/ml/m"]);
}
