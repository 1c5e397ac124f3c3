use rawk::listing::category_heading;
use rawk::template::Template;
use rawk::text::{
    chars_of, contains_str, has_char, join_strings, removed_char, replaced_char, str_eq, str_lt,
};

#[test]
fn substring_search() {
    assert!(contains_str("pytorch lightning", "torch"));
    assert!(contains_str("abc", ""));
    assert!(contains_str("", ""));
    assert!(!contains_str("", "a"));
    assert!(!contains_str("torc", "torch"));
    assert!(contains_str("aaab", "aab"));
}

#[test]
fn char_search() {
    assert!(has_char("ml/simple-ml", '/'));
    assert!(!has_char("simple-ml", '/'));
}

#[test]
fn replace_and_remove() {
    assert_eq!(replaced_char("a b c", ' ', '-'), "a-b-c");
    assert_eq!(removed_char("3.12.1", '.'), "3121");
    assert_eq!(removed_char("", '.'), "");
}

#[test]
fn join_with_separator() {
    let v = vec!["git".to_string(), "docker".to_string(), "uv".to_string()];
    assert_eq!(join_strings(&v, ", "), "git, docker, uv");
    assert_eq!(join_strings(&Vec::new(), ", "), "");
    assert_eq!(join_strings(&vec!["one".to_string()], ", "), "one");
}

#[test]
fn ordering_of_strings() {
    assert!(str_lt("abc", "abd"));
    assert!(str_lt("ab", "abc"));
    assert!(!str_lt("abc", "abc"));
    assert!(!str_lt("b", "abc"));
    assert!(str_lt("Z", "a"));
    assert!(str_eq("same", "same"));
    assert!(!str_eq("same", "Same"));
}

#[test]
fn case_conversion() {
    assert_eq!(category_heading("ml"), "ML:");
    assert_eq!(category_heading("Agents"), "AGENTS:");
    assert_eq!(chars_of("héllo"), vec!['h', 'é', 'l', 'l', 'o']);
}

#[test]
fn path_operations() {
    assert_eq!(
        Template::locate("ml/simple-ml", "templates", &Vec::new(), &None).unwrap(),
        "templates/ml/simple-ml"
    );
    assert_eq!(Template::locate("ml/x", "/srv/templates/", &Vec::new(), &None).unwrap(), "/srv/templates/ml/x");
    assert_eq!(rawk::template::templates_beside("/"), None);
    assert_eq!(
        rawk::template::templates_beside("/opt/rawk/bin/rawk"),
        Some("/opt/rawk/templates".to_string())
    );
}
