use rawk::listing::{group_by_category, hashtags};
use rawk::template::{PathProbe, Requirements, Template, TemplateConfig, TemplateMetadata};

fn template(category: &str, name: &str) -> Template {
    let config = TemplateConfig {
        template: TemplateMetadata {
            name: name.to_string(),
            description: format!("{} template", name),
            version: "1.0".to_string(),
            category: category.to_string(),
            tags: Vec::new(),
        },
        requirements: Requirements::default(),
        questions: Vec::new(),
    };
    Template::from_path(
        format!("templates/{}/{}", category, name),
        PathProbe { exists: true, is_dir: true, has_config: true },
        Ok(config),
    )
    .unwrap()
}

fn sample() -> Vec<Template> {
    vec![
        template("ml", "zeta"),
        template("llm", "rag"),
        template("ml", "alpha"),
        template("agents", "crew"),
        template("llm", "chat"),
    ]
}

fn shown(ts: &Vec<Template>, category: Option<&str>) -> Vec<(String, Vec<String>)> {
    group_by_category(ts, category)
        .into_iter()
        .map(|g| (g.category, g.members.into_iter().map(|i| ts[i].name.clone()).collect()))
        .collect()
}

#[test]
fn groups_sorted_by_category_then_name() {
    let ts = sample();
    assert_eq!(
        shown(&ts, None),
        vec![
            ("agents".to_string(), vec!["crew".to_string()]),
            ("llm".to_string(), vec!["chat".to_string(), "rag".to_string()]),
            ("ml".to_string(), vec!["alpha".to_string(), "zeta".to_string()]),
        ]
    );
}

#[test]
fn category_filter_keeps_one_category() {
    let ts = sample();
    assert_eq!(
        shown(&ts, Some("ml")),
        vec![("ml".to_string(), vec!["alpha".to_string(), "zeta".to_string()])]
    );
    assert!(shown(&ts, Some("vision")).is_empty());
}

#[test]
fn equal_names_keep_their_order() {
    let ts = vec![template("ml", "same"), template("ml", "a"), template("ml", "same")];
    let groups = group_by_category(&ts, None);
    assert_eq!(groups.len(), 1);
    assert_eq!(groups[0].members, vec![1, 0, 2]);
}

#[test]
fn uppercase_and_byte_order() {
    // names sort as strings do: upper case before lower case
    let ts = vec![template("ml", "beta"), template("ml", "Zed"), template("ml", "alpha")];
    let groups = group_by_category(&ts, None);
    assert_eq!(groups[0].members, vec![1, 2, 0]);
}

#[test]
fn every_template_in_exactly_one_group() {
    let ts = sample();
    let groups = group_by_category(&ts, None);
    let total: usize = groups.iter().map(|g| g.members.len()).sum();
    assert_eq!(total, ts.len());
    for i in 0..ts.len() {
        let n = groups.iter().filter(|g| g.members.contains(&i)).count();
        assert_eq!(n, 1);
    }
}

#[test]
fn hashtags_line() {
    let tags = vec!["pytorch".to_string(), "beginner".to_string()];
    assert_eq!(hashtags(&tags), "#pytorch #beginner");
    assert_eq!(hashtags(&Vec::new()), "");
}
