//! What a new project is generated with: its slug, its description, and
//! the variables its template is rendered with; and how a rendering failure
//! is classified for the user.

use crate::render::{ContextValue, ContextValueView, RenderContext};
use crate::text::{
    has_substring, lowercase, remove_char, removed_char, replace_char, replaced_char,
    contains_str, to_lowercase,
};
use vstd::prelude::*;

verus! {

/// The Python version a new project targets.
pub const PYTHON_VERSION: &'static str = "3.12";

/// The author name a new project is generated with.
pub const AUTHOR_NAME: &'static str = "Your Name";

/// The author e-mail a new project is generated with.
pub const AUTHOR_EMAIL: &'static str = "your.email@example.com";

/// The slug of a project name: lower-cased, with each space turned into `-`.
pub open spec fn slug_of(name: Seq<char>) -> Seq<char> {
    replace_char(lowercase(name), ' ', '-')
}

/// The slug of a project name: lower-cased, with each space turned into `-`.
pub fn project_slug(name: &str) -> (r: String)
    ensures
        r@ == slug_of(name@),
{
    let lower = to_lowercase(name);
    replaced_char(lower.as_str(), ' ', '-')
}

/// The description of a project generated from a template with this
/// description.
pub open spec fn description_of(template_description: Seq<char>) -> Seq<char> {
    "A "@ + template_description + " project"@
}

/// The description of a project generated from a template with this
/// description: `A <description> project`.
pub fn project_description(template_description: &str) -> (r: String)
    ensures
        r@ == description_of(template_description@),
{
    let mut s: String = String::from_str("A ");
    s.append(template_description);
    s.append(" project");
    s
}

/// The linter target of a Python version: `py` followed by the version
/// without its dots (`3.12` gives `py312`).
pub open spec fn target_of(version: Seq<char>) -> Seq<char> {
    "py"@ + remove_char(version, '.')
}

/// The linter target of a Python version: `py` followed by the version
/// without its dots.
pub fn python_target(version: &str) -> (r: String)
    ensures
        r@ == target_of(version@),
{
    let mut s: String = String::from_str("py");
    let digits = removed_char(version, '.');
    s.append(digits.as_str());
    s
}

/// The variables a project named `name` is rendered with, from a template
/// described as `template_description`: the project's name, slug,
/// description and author, and the defaults of the generated project.
pub open spec fn project_variables(name: Seq<char>, template_description: Seq<char>) -> Map<
    Seq<char>,
    ContextValueView,
> {
    Map::<Seq<char>, ContextValueView>::empty()
        .insert("project_name"@, ContextValueView::Str(name))
        .insert("project_slug"@, ContextValueView::Str(slug_of(name)))
        .insert("description"@, ContextValueView::Str(description_of(template_description)))
        .insert("author_name"@, ContextValueView::Str(AUTHOR_NAME@))
        .insert("author_email"@, ContextValueView::Str(AUTHOR_EMAIL@))
        .insert("python_version"@, ContextValueView::Str(PYTHON_VERSION@))
        .insert("python_target"@, ContextValueView::Str(target_of(PYTHON_VERSION@)))
        .insert("package_manager"@, ContextValueView::Str("uv"@))
        .insert("model_type"@, ContextValueView::Str("classification"@))
        .insert("dataset_source"@, ContextValueView::Str("local"@))
        .insert("use_wandb"@, ContextValueView::Bool(true))
        .insert("use_hydra"@, ContextValueView::Bool(true))
        .insert("use_marimo"@, ContextValueView::Bool(true))
        .insert("use_docker"@, ContextValueView::Bool(true))
        .insert("use_precommit"@, ContextValueView::Bool(true))
        .insert("ci_cd"@, ContextValueView::Str("github"@))
        .insert("license"@, ContextValueView::Str("MIT"@))
        .insert("init_git"@, ContextValueView::Bool(true))
}

/// Binds `key` to the string `value`.
fn add_str(ctx: &mut RenderContext, key: &str, value: &str)
    ensures
        final(ctx)@ == old(ctx)@.insert(key@, ContextValueView::Str(value@)),
{
    ctx.add_variable(String::from_str(key), ContextValue::Str(String::from_str(value)));
}

/// Binds `key` to the flag `value`.
fn add_flag(ctx: &mut RenderContext, key: &str, value: bool)
    ensures
        final(ctx)@ == old(ctx)@.insert(key@, ContextValueView::Bool(value)),
{
    ctx.add_variable(String::from_str(key), ContextValue::Bool(value));
}

/// The variables a project named `name` is rendered with, from a template
/// described as `template_description`.
pub fn project_context(name: &str, template_description: &str) -> (r: RenderContext)
    ensures
        r@ == project_variables(name@, template_description@),
{
    let mut ctx = RenderContext::new(
        String::from_str(name),
        project_slug(name),
        project_description(template_description),
        String::from_str(AUTHOR_NAME),
        String::from_str(AUTHOR_EMAIL),
    );
    add_str(&mut ctx, "python_version", PYTHON_VERSION);
    let target = python_target(PYTHON_VERSION);
    add_str(&mut ctx, "python_target", target.as_str());
    add_str(&mut ctx, "package_manager", "uv");
    add_str(&mut ctx, "model_type", "classification");
    add_str(&mut ctx, "dataset_source", "local");
    add_flag(&mut ctx, "use_wandb", true);
    add_flag(&mut ctx, "use_hydra", true);
    add_flag(&mut ctx, "use_marimo", true);
    add_flag(&mut ctx, "use_docker", true);
    add_flag(&mut ctx, "use_precommit", true);
    add_str(&mut ctx, "ci_cd", "github");
    add_str(&mut ctx, "license", "MIT");
    add_flag(&mut ctx, "init_git", true);
    ctx
}

/// A rendering failure that comes from the template's use of variables or
/// methods that are not available: its message mentions `undefined` or
/// `unknown method`.
pub open spec fn is_variable_error(message: Seq<char>) -> bool {
    has_substring(message, "undefined"@) || has_substring(message, "unknown method"@)
}

/// Whether a rendering failure with this message comes from the template's
/// use of variables or methods that are not available.
pub fn is_template_variable_error(message: &str) -> (r: bool)
    ensures
        r == is_variable_error(message@),
{
    contains_str(message, "undefined") || contains_str(message, "unknown method")
}

/// A project slug holds no space.
pub proof fn law_slug_has_no_space(name: Seq<char>)
    ensures
        !slug_of(name).contains(' '),
{
    let s = slug_of(name);
    assert forall|i: int| 0 <= i < s.len() implies s[i] != ' ' by {}
}

/// A Python linter target holds no dot.
pub proof fn law_target_has_no_dot(version: Seq<char>)
    ensures
        !target_of(version).contains('.'),
{
    let d = remove_char(version, '.');
    let t = target_of(version);
    reveal_strlit("py");
    assert forall|i: int| 0 <= i < t.len() implies t[i] != '.' by {
        if i >= 2 {
            assert(t[i] == d[i - 2]);
            version.filter_lemma(|x: char| x != '.');
        }
    }
}

/// A new project's variables bind its name exactly as given, its slug (the
/// name lower-cased, each space turned into `-`), its description, its
/// author and the Python version and linter target: the name is not
/// replaced by the slug, and the slug holds no space.
pub proof fn law_project_variables_bind_name_and_slug(name: Seq<char>, template_description: Seq<char>)
    ensures
        ({
            let vars = project_variables(name, template_description);
            &&& vars.dom().contains("project_name"@)
            &&& vars["project_name"@] == ContextValueView::Str(name)
            &&& vars.dom().contains("project_slug"@)
            &&& vars["project_slug"@] == ContextValueView::Str(
                replace_char(lowercase(name), ' ', '-'),
            )
            &&& vars.dom().contains("description"@)
            &&& vars["description"@] == ContextValueView::Str(
                "A "@ + template_description + " project"@,
            )
            &&& vars["author_name"@] == ContextValueView::Str("Your Name"@)
            &&& vars["author_email"@] == ContextValueView::Str("your.email@example.com"@)
            &&& vars["python_version"@] == ContextValueView::Str("3.12"@)
            &&& vars["python_target"@] == ContextValueView::Str("py312"@)
        }),
{
    reveal_strlit("project_name");
    reveal_strlit("project_slug");
    reveal_strlit("description");
    reveal_strlit("author_name");
    reveal_strlit("author_email");
    reveal_strlit("python_version");
    reveal_strlit("python_target");
    reveal_strlit("package_manager");
    reveal_strlit("model_type");
    reveal_strlit("dataset_source");
    reveal_strlit("use_wandb");
    reveal_strlit("use_hydra");
    reveal_strlit("use_marimo");
    reveal_strlit("use_docker");
    reveal_strlit("use_precommit");
    reveal_strlit("ci_cd");
    reveal_strlit("license");
    reveal_strlit("init_git");
    reveal_strlit("3.12");
    reveal_strlit("py");
    reveal_strlit("py312");
    let v: Seq<char> = "3.12"@;
    assert(v =~= seq!['3', '.', '1', '2']);
    reveal_with_fuel(Seq::filter, 1);
    assert(remove_char(v.take(0), '.') =~= Seq::<char>::empty());
    assert(v.take(1).drop_last() =~= v.take(0));
    assert(remove_char(v.take(1), '.') =~= seq!['3']);
    assert(v.take(2).drop_last() =~= v.take(1));
    assert(remove_char(v.take(2), '.') =~= seq!['3']);
    assert(v.take(3).drop_last() =~= v.take(2));
    assert(remove_char(v.take(3), '.') =~= seq!['3', '1']);
    assert(v.take(4).drop_last() =~= v.take(3));
    assert(remove_char(v.take(4), '.') =~= seq!['3', '1', '2']);
    assert(v.take(4) =~= v);
    assert(target_of(v) =~= "py312"@);
    assert("project_name"@.len() == 12);
    assert("project_slug"@.len() == 12);
    assert("description"@.len() == 11);
    assert("author_name"@.len() == 11);
    assert("author_email"@.len() == 12);
    assert("python_version"@.len() == 14);
    assert("python_target"@.len() == 13);
    assert("package_manager"@.len() == 15);
    assert("model_type"@.len() == 10);
    assert("dataset_source"@.len() == 14);
    assert("use_wandb"@.len() == 9);
    assert("use_hydra"@.len() == 9);
    assert("use_marimo"@.len() == 10);
    assert("use_docker"@.len() == 10);
    assert("use_precommit"@.len() == 13);
    assert("ci_cd"@.len() == 5);
    assert("license"@.len() == 7);
    assert("init_git"@.len() == 8);
    assert("project_name"@[8] != "project_slug"@[8]);
    assert("project_name"@[0] != "author_email"@[0]);
    assert("project_slug"@[0] != "author_email"@[0]);
    assert("description"@[0] != "author_name"@[0]);
    assert("python_version"@[0] != "dataset_source"@[0]);
    assert("python_target"@[0] != "use_precommit"@[0]);
    assert("project_name"@ != "project_slug"@);
    assert("project_name"@ != "description"@);
    assert("project_name"@ != "author_name"@);
    assert("project_name"@ != "author_email"@);
    assert("project_name"@ != "python_version"@);
    assert("project_name"@ != "python_target"@);
    assert("project_name"@ != "package_manager"@);
    assert("project_name"@ != "model_type"@);
    assert("project_name"@ != "dataset_source"@);
    assert("project_name"@ != "use_wandb"@);
    assert("project_name"@ != "use_hydra"@);
    assert("project_name"@ != "use_marimo"@);
    assert("project_name"@ != "use_docker"@);
    assert("project_name"@ != "use_precommit"@);
    assert("project_name"@ != "ci_cd"@);
    assert("project_name"@ != "license"@);
    assert("project_name"@ != "init_git"@);
    assert("project_slug"@ != "description"@);
    assert("project_slug"@ != "author_name"@);
    assert("project_slug"@ != "author_email"@);
    assert("project_slug"@ != "python_version"@);
    assert("project_slug"@ != "python_target"@);
    assert("project_slug"@ != "package_manager"@);
    assert("project_slug"@ != "model_type"@);
    assert("project_slug"@ != "dataset_source"@);
    assert("project_slug"@ != "use_wandb"@);
    assert("project_slug"@ != "use_hydra"@);
    assert("project_slug"@ != "use_marimo"@);
    assert("project_slug"@ != "use_docker"@);
    assert("project_slug"@ != "use_precommit"@);
    assert("project_slug"@ != "ci_cd"@);
    assert("project_slug"@ != "license"@);
    assert("project_slug"@ != "init_git"@);
    assert("description"@ != "author_name"@);
    assert("description"@ != "author_email"@);
    assert("description"@ != "python_version"@);
    assert("description"@ != "python_target"@);
    assert("description"@ != "package_manager"@);
    assert("description"@ != "model_type"@);
    assert("description"@ != "dataset_source"@);
    assert("description"@ != "use_wandb"@);
    assert("description"@ != "use_hydra"@);
    assert("description"@ != "use_marimo"@);
    assert("description"@ != "use_docker"@);
    assert("description"@ != "use_precommit"@);
    assert("description"@ != "ci_cd"@);
    assert("description"@ != "license"@);
    assert("description"@ != "init_git"@);
    assert("author_name"@ != "author_email"@);
    assert("author_name"@ != "python_version"@);
    assert("author_name"@ != "python_target"@);
    assert("author_name"@ != "package_manager"@);
    assert("author_name"@ != "model_type"@);
    assert("author_name"@ != "dataset_source"@);
    assert("author_name"@ != "use_wandb"@);
    assert("author_name"@ != "use_hydra"@);
    assert("author_name"@ != "use_marimo"@);
    assert("author_name"@ != "use_docker"@);
    assert("author_name"@ != "use_precommit"@);
    assert("author_name"@ != "ci_cd"@);
    assert("author_name"@ != "license"@);
    assert("author_name"@ != "init_git"@);
    assert("author_email"@ != "python_version"@);
    assert("author_email"@ != "python_target"@);
    assert("author_email"@ != "package_manager"@);
    assert("author_email"@ != "model_type"@);
    assert("author_email"@ != "dataset_source"@);
    assert("author_email"@ != "use_wandb"@);
    assert("author_email"@ != "use_hydra"@);
    assert("author_email"@ != "use_marimo"@);
    assert("author_email"@ != "use_docker"@);
    assert("author_email"@ != "use_precommit"@);
    assert("author_email"@ != "ci_cd"@);
    assert("author_email"@ != "license"@);
    assert("author_email"@ != "init_git"@);
    assert("python_version"@ != "python_target"@);
    assert("python_version"@ != "package_manager"@);
    assert("python_version"@ != "model_type"@);
    assert("python_version"@ != "dataset_source"@);
    assert("python_version"@ != "use_wandb"@);
    assert("python_version"@ != "use_hydra"@);
    assert("python_version"@ != "use_marimo"@);
    assert("python_version"@ != "use_docker"@);
    assert("python_version"@ != "use_precommit"@);
    assert("python_version"@ != "ci_cd"@);
    assert("python_version"@ != "license"@);
    assert("python_version"@ != "init_git"@);
    assert("python_target"@ != "package_manager"@);
    assert("python_target"@ != "model_type"@);
    assert("python_target"@ != "dataset_source"@);
    assert("python_target"@ != "use_wandb"@);
    assert("python_target"@ != "use_hydra"@);
    assert("python_target"@ != "use_marimo"@);
    assert("python_target"@ != "use_docker"@);
    assert("python_target"@ != "use_precommit"@);
    assert("python_target"@ != "ci_cd"@);
    assert("python_target"@ != "license"@);
    assert("python_target"@ != "init_git"@);
    assert(AUTHOR_NAME@ == "Your Name"@);
    assert(AUTHOR_EMAIL@ == "your.email@example.com"@);
}

} // verus!
