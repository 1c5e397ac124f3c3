//! Project templates: their data, how a template name is resolved to a
//! directory, how a directory becomes a `Template`, how a template is
//! checked, and how the templates of a category tree are listed and searched.
//!
//! The disk is read by the caller.  Each decision takes what was read as
//! plain values: whether a path exists and is a directory (`PathProbe`,
//! `CategoryProbe`, `DirProbe`), the outcome of reading and parsing a
//! template's `rawk.toml` (`Result<TemplateConfig, String>`), and the
//! entries of the templates directory (`CategoryEntry`).

use crate::paths;
use crate::paths::{joined_path, path_file_name, path_parent};
use crate::text::{
    all_ascii, ascii_lower, contains_str, has_char, has_substring, lemma_empty_substring,
    lemma_substring_transitive, lowercase, string_views, to_lowercase,
};
use vstd::prelude::*;

verus! {

// ---------------------------------------------------------------------------
// Data
// ---------------------------------------------------------------------------

/// The view of an optional string.
pub open spec fn opt_string_view(o: Option<String>) -> Option<Seq<char>> {
    match o {
        Some(s) => Some(s@),
        None => None,
    }
}

/// The view of an optional list of strings.
pub open spec fn opt_strings_view(o: Option<Vec<String>>) -> Option<Seq<Seq<char>>> {
    match o {
        Some(v) => Some(string_views(v@)),
        None => None,
    }
}

/// Template metadata (the `[template]` table of `rawk.toml`).
#[derive(Debug, Clone)]
pub struct TemplateMetadata {
    pub name: String,
    pub description: String,
    pub version: String,
    pub category: String,
    pub tags: Vec<String>,
}

pub struct MetadataView {
    pub name: Seq<char>,
    pub description: Seq<char>,
    pub version: Seq<char>,
    pub category: Seq<char>,
    pub tags: Seq<Seq<char>>,
}

impl View for TemplateMetadata {
    type V = MetadataView;

    open spec fn view(&self) -> MetadataView {
        MetadataView {
            name: self.name@,
            description: self.description@,
            version: self.version@,
            category: self.category@,
            tags: string_views(self.tags@),
        }
    }
}

/// Template requirements: a Python version requirement (such as
/// `">=3.10"`) and the tools a generated project needs.
#[derive(Debug, Clone, Default)]
pub struct Requirements {
    pub python: Option<String>,
    pub tools: Vec<String>,
}

pub struct RequirementsView {
    pub python: Option<Seq<char>>,
    pub tools: Seq<Seq<char>>,
}

impl View for Requirements {
    type V = RequirementsView;

    open spec fn view(&self) -> RequirementsView {
        RequirementsView { python: opt_string_view(self.python), tools: string_views(self.tools@) }
    }
}

/// A question asked while a project is created: the variable it sets, its
/// prompt, an optional default and optional choices.
#[derive(Debug, Clone)]
pub struct Question {
    pub id: String,
    pub prompt: String,
    pub default: Option<String>,
    pub choices: Option<Vec<String>>,
}

pub struct QuestionView {
    pub id: Seq<char>,
    pub prompt: Seq<char>,
    pub default: Option<Seq<char>>,
    pub choices: Option<Seq<Seq<char>>>,
}

impl View for Question {
    type V = QuestionView;

    open spec fn view(&self) -> QuestionView {
        QuestionView {
            id: self.id@,
            prompt: self.prompt@,
            default: opt_string_view(self.default),
            choices: opt_strings_view(self.choices),
        }
    }
}

/// The contents of a template's `rawk.toml`.
#[derive(Debug, Clone)]
pub struct TemplateConfig {
    pub template: TemplateMetadata,
    pub requirements: Requirements,
    pub questions: Vec<Question>,
}

pub struct TemplateConfigView {
    pub template: MetadataView,
    pub requirements: RequirementsView,
    pub questions: Seq<QuestionView>,
}

impl View for TemplateConfig {
    type V = TemplateConfigView;

    open spec fn view(&self) -> TemplateConfigView {
        TemplateConfigView {
            template: self.template@,
            requirements: self.requirements@,
            questions: self.questions@.map_values(|q: Question| q@),
        }
    }
}

/// A project template: its name (the directory's name), the path of its
/// directory, its configuration and its category (the parent directory's
/// name).
#[derive(Debug, Clone)]
pub struct Template {
    pub name: String,
    pub path: String,
    pub config: TemplateConfig,
    pub category: String,
}

pub struct TemplateView {
    pub name: Seq<char>,
    pub path: Seq<char>,
    pub config: TemplateConfigView,
    pub category: Seq<char>,
}

impl View for Template {
    type V = TemplateView;

    open spec fn view(&self) -> TemplateView {
        TemplateView {
            name: self.name@,
            path: self.path@,
            config: self.config@,
            category: self.category@,
        }
    }
}

/// The views of a sequence of templates.
pub open spec fn template_views(s: Seq<Template>) -> Seq<TemplateView> {
    s.map_values(|t: Template| t@)
}

// ---------------------------------------------------------------------------
// Errors
// ---------------------------------------------------------------------------

/// Why a template could not be found, loaded or accepted.
#[derive(Debug, Clone)]
pub enum TemplateError {
    /// The template path does not exist.
    PathNotFound(String),
    /// The template path is not a directory.
    NotADirectory(String),
    /// The template directory has no `rawk.toml`.
    MissingConfig(String),
    /// `rawk.toml` could not be read or parsed; the reader's message.
    InvalidConfig(String),
    /// The template path has no final component to name the template by.
    InvalidPath,
    /// No category holds a template of this name.
    NotFound(String),
    /// The templates directory could not be read; the reader's message.
    ReadDir(String),
    /// The template has no `{{project_slug}}` directory.
    MissingProjectDir(String),
}

pub enum TemplateErrorView {
    PathNotFound(Seq<char>),
    NotADirectory(Seq<char>),
    MissingConfig(Seq<char>),
    InvalidConfig(Seq<char>),
    InvalidPath,
    NotFound(Seq<char>),
    ReadDir(Seq<char>),
    MissingProjectDir(Seq<char>),
}

impl View for TemplateError {
    type V = TemplateErrorView;

    open spec fn view(&self) -> TemplateErrorView {
        match self {
            TemplateError::PathNotFound(p) => TemplateErrorView::PathNotFound(p@),
            TemplateError::NotADirectory(p) => TemplateErrorView::NotADirectory(p@),
            TemplateError::MissingConfig(p) => TemplateErrorView::MissingConfig(p@),
            TemplateError::InvalidConfig(m) => TemplateErrorView::InvalidConfig(m@),
            TemplateError::InvalidPath => TemplateErrorView::InvalidPath,
            TemplateError::NotFound(n) => TemplateErrorView::NotFound(n@),
            TemplateError::ReadDir(m) => TemplateErrorView::ReadDir(m@),
            TemplateError::MissingProjectDir(p) => TemplateErrorView::MissingProjectDir(p@),
        }
    }
}

/// The message an error is reported with.
pub open spec fn error_message(e: TemplateErrorView) -> Seq<char> {
    match e {
        TemplateErrorView::PathNotFound(p) => "Template path does not exist: "@ + p,
        TemplateErrorView::NotADirectory(p) => "Template path is not a directory: "@ + p,
        TemplateErrorView::MissingConfig(p) => "Template missing rawk.toml configuration: "@ + p,
        TemplateErrorView::InvalidConfig(m) => m,
        TemplateErrorView::InvalidPath => "Invalid template path"@,
        TemplateErrorView::NotFound(n) => "Template not found: "@ + n,
        TemplateErrorView::ReadDir(m) => m,
        TemplateErrorView::MissingProjectDir(p) => "Template missing {{project_slug}} directory: "@
            + p,
    }
}

/// `prefix` followed by `rest`.
fn prefixed(prefix: &str, rest: &str) -> (r: String)
    ensures
        r@ == prefix@ + rest@,
{
    let mut s: String = String::from_str(prefix);
    s.append(rest);
    s
}

impl TemplateError {
    /// The message this error is reported with.
    pub fn message(&self) -> (r: String)
        ensures
            r@ == error_message(self@),
    {
        match self {
            TemplateError::PathNotFound(p) => prefixed("Template path does not exist: ", p.as_str()),
            TemplateError::NotADirectory(p) => prefixed(
                "Template path is not a directory: ",
                p.as_str(),
            ),
            TemplateError::MissingConfig(p) => prefixed(
                "Template missing rawk.toml configuration: ",
                p.as_str(),
            ),
            TemplateError::InvalidConfig(m) => m.clone(),
            TemplateError::InvalidPath => String::from_str("Invalid template path"),
            TemplateError::NotFound(n) => prefixed("Template not found: ", n.as_str()),
            TemplateError::ReadDir(m) => m.clone(),
            TemplateError::MissingProjectDir(p) => prefixed(
                "Template missing {{project_slug}} directory: ",
                p.as_str(),
            ),
        }
    }
}

/// The view of a template result.
pub open spec fn template_result_view(r: Result<Template, TemplateError>) -> Result<
    TemplateView,
    TemplateErrorView,
> {
    match r {
        Ok(t) => Ok(t@),
        Err(e) => Err(e@),
    }
}

/// The view of the outcome of reading and parsing `rawk.toml`.
pub open spec fn config_result_view(c: Result<TemplateConfig, String>) -> Result<
    TemplateConfigView,
    Seq<char>,
> {
    match c {
        Ok(c) => Ok(c@),
        Err(m) => Err(m@),
    }
}

// ---------------------------------------------------------------------------
// Loading a template from its directory
// ---------------------------------------------------------------------------

/// What was found on disk at a template path.
#[derive(Debug, Clone, Copy)]
pub struct PathProbe {
    /// The path exists.
    pub exists: bool,
    /// The path is a directory.
    pub is_dir: bool,
    /// The path holds a `rawk.toml` entry.
    pub has_config: bool,
}

/// The category of a template at `path`: the name of its parent
/// directory, or `other` when the path has no named parent.
pub open spec fn category_of_path(path: Seq<char>) -> Seq<char> {
    match path_parent(path) {
        Some(p) => match path_file_name(p) {
            Some(n) => n,
            None => "other"@,
        },
        None => "other"@,
    }
}

/// The template that a directory at `path` yields, or why it yields none:
/// the path must exist, be a directory and hold `rawk.toml`; the
/// configuration must have been read and parsed; the path must have a final
/// component, which names the template.
pub open spec fn from_path_spec(
    path: Seq<char>,
    probe: PathProbe,
    config: Result<TemplateConfigView, Seq<char>>,
) -> Result<TemplateView, TemplateErrorView> {
    if !probe.exists {
        Err(TemplateErrorView::PathNotFound(path))
    } else if !probe.is_dir {
        Err(TemplateErrorView::NotADirectory(path))
    } else if !probe.has_config {
        Err(TemplateErrorView::MissingConfig(path))
    } else {
        match config {
            Err(m) => Err(TemplateErrorView::InvalidConfig(m)),
            Ok(c) => match path_file_name(path) {
                None => Err(TemplateErrorView::InvalidPath),
                Some(n) => Ok(
                    TemplateView { name: n, path: path, config: c, category: category_of_path(path) },
                ),
            },
        }
    }
}

/// The category name of the template at `path`.
fn category_name(path: &str) -> (r: String)
    ensures
        r@ == category_of_path(path@),
{
    match paths::parent(path) {
        Some(p) => match paths::file_name(p.as_str()) {
            Some(n) => n,
            None => String::from_str("other"),
        },
        None => String::from_str("other"),
    }
}

impl Template {
    /// Makes the template that the directory at `path` holds, given what was
    /// found there and the outcome of reading and parsing its `rawk.toml`.
    pub fn from_path(path: String, probe: PathProbe, config: Result<TemplateConfig, String>) -> (r:
        Result<Template, TemplateError>)
        ensures
            template_result_view(r) == from_path_spec(path@, probe, config_result_view(config)),
    {
        if !probe.exists {
            return Err(TemplateError::PathNotFound(path));
        }
        if !probe.is_dir {
            return Err(TemplateError::NotADirectory(path));
        }
        if !probe.has_config {
            return Err(TemplateError::MissingConfig(path));
        }
        let config = match config {
            Ok(c) => c,
            Err(m) => {
                return Err(TemplateError::InvalidConfig(m));
            },
        };
        let name = match paths::file_name(path.as_str()) {
            Some(n) => n,
            None => {
                return Err(TemplateError::InvalidPath);
            },
        };
        let category = category_name(path.as_str());
        Ok(Template { name, path, config, category })
    }
}

// ---------------------------------------------------------------------------
// Where templates live, and resolving a template name
// ---------------------------------------------------------------------------

/// A candidate directory and whether it exists as a directory.
#[derive(Debug, Clone)]
pub struct DirProbe {
    pub path: String,
    pub is_dir: bool,
}

/// The templates directory, by priority: the directory named by the
/// environment when it is a directory; else `templates` in the current
/// directory when it is one; else `../templates` seen from the executable's directory when it
/// is one; else `templates`.
pub open spec fn templates_dir_spec(
    from_env: Option<(Seq<char>, bool)>,
    local_is_dir: bool,
    beside_exe: Option<(Seq<char>, bool)>,
) -> Seq<char> {
    match from_env {
        Some((p, true)) => p,
        _ => if local_is_dir {
            "templates"@
        } else {
            match beside_exe {
                Some((p, true)) => p,
                _ => "templates"@,
            }
        },
    }
}

/// The view of an optional directory probe.
pub open spec fn dir_probe_view(o: Option<DirProbe>) -> Option<(Seq<char>, bool)> {
    match o {
        Some(d) => Some((d.path@, d.is_dir)),
        None => None,
    }
}

/// The `templates` directory next to the directory that holds an
/// executable at `exe` (`../templates` seen from the executable's
/// directory): the parent of the executable's parent, joined with
/// `templates`, when both parents exist.
pub fn templates_beside(exe: &str) -> (r: Option<String>)
    ensures
        r matches Some(s) ==> (path_parent(exe@) matches Some(p) && path_parent(p) matches Some(
            pp,
        ) && s@ == joined_path(pp, "templates"@)),
        r is None ==> (path_parent(exe@) is None || path_parent(path_parent(exe@)->0) is None),
{
    match paths::parent(exe) {
        Some(p) => match paths::parent(p.as_str()) {
            Some(pp) => Some(paths::join(pp.as_str(), "templates")),
            None => None,
        },
        None => None,
    }
}

/// Chooses the templates directory from what was found at each candidate:
/// `from_env` is the directory the environment names (if it names one),
/// `local_is_dir` whether `templates` exists as a directory in the current
/// directory, `beside_exe` the `templates` directory next to the
/// executable's directory (see `templates_beside`), if there is one.
pub fn get_templates_dir(from_env: Option<DirProbe>, local_is_dir: bool, beside_exe: Option<DirProbe>) -> (r:
    String)
    ensures
        r@ == templates_dir_spec(dir_probe_view(from_env), local_is_dir, dir_probe_view(beside_exe)),
{
    if let Some(d) = from_env {
        if d.is_dir {
            return d.path;
        }
    }
    if local_is_dir {
        return String::from_str("templates");
    }
    if let Some(d) = beside_exe {
        if d.is_dir {
            return d.path;
        }
    }
    String::from_str("templates")
}

/// An entry of the templates directory, seen while looking for a template
/// by its bare name: the entry's path, whether it is a directory, and
/// whether the entry's path joined with the name exists as a directory.
#[derive(Debug, Clone)]
pub struct CategoryProbe {
    pub path: String,
    pub is_dir: bool,
    pub holds_template: bool,
}

/// The entry is a category that holds the template.
pub open spec fn holds(c: CategoryProbe) -> bool {
    c.is_dir && c.holds_template
}

/// The first entry at or after `i` that holds the template.
pub open spec fn first_holding(cats: Seq<CategoryProbe>, i: int) -> Option<int>
    decreases cats.len() - i,
{
    if i < 0 || i >= cats.len() {
        None
    } else if holds(cats[i]) {
        Some(i)
    } else {
        first_holding(cats, i + 1)
    }
}

proof fn lemma_first_holding_bounds(cats: Seq<CategoryProbe>, i: int)
    requires
        0 <= i,
    ensures
        first_holding(cats, i) matches Some(k) ==> i <= k < cats.len() && holds(cats[k]),
    decreases cats.len() - i,
{
    if i < cats.len() && !holds(cats[i]) {
        lemma_first_holding_bounds(cats, i + 1);
    }
}

/// Where a template is looked for by name.  A name with `/` in it is a
/// path below the templates directory.  A bare name is looked for in each
/// category of the templates directory, in the order the entries were read;
/// if none holds it, the error that cut the reading short is reported, or
/// else that the template was not found.
pub open spec fn locate_spec(
    name: Seq<char>,
    templates_dir: Seq<char>,
    categories: Seq<CategoryProbe>,
    read_error: Option<Seq<char>>,
) -> Result<Seq<char>, TemplateErrorView> {
    if name.contains('/') {
        Ok(joined_path(templates_dir, name))
    } else {
        match first_holding(categories, 0) {
            Some(i) => Ok(joined_path(categories[i].path@, name)),
            None => match read_error {
                Some(m) => Err(TemplateErrorView::ReadDir(m)),
                None => Err(TemplateErrorView::NotFound(name)),
            },
        }
    }
}

/// The view of a path result.
pub open spec fn path_result_view(r: Result<String, TemplateError>) -> Result<
    Seq<char>,
    TemplateErrorView,
> {
    match r {
        Ok(p) => Ok(p@),
        Err(e) => Err(e@),
    }
}

impl Template {
    /// Looks for a template by its bare name in the entries of the
    /// templates directory: the first directory entry that holds a directory
    /// of that name.  `read_error` is the error that cut the reading of the
    /// entries short, if any.
    pub fn find_template_by_name(
        categories: &Vec<CategoryProbe>,
        read_error: &Option<String>,
        name: &str,
    ) -> (r: Result<String, TemplateError>)
        ensures
            path_result_view(r) == match first_holding(categories@, 0) {
                Some(i) => Ok(joined_path(categories@[i].path@, name@)),
                None => match read_error {
                    Some(m) => Err(TemplateErrorView::ReadDir(m@)),
                    None => Err(TemplateErrorView::NotFound(name@)),
                },
            },
    {
        let mut i: usize = 0;
        while i < categories.len()
            invariant
                i <= categories@.len(),
                first_holding(categories@, 0) == first_holding(categories@, i as int),
            decreases categories@.len() - i,
        {
            let c = &categories[i];
            if c.is_dir && c.holds_template {
                return Ok(paths::join(c.path.as_str(), name));
            }
            i += 1;
        }
        match read_error {
            Some(m) => Err(TemplateError::ReadDir(m.clone())),
            None => Err(TemplateError::NotFound(String::from_str(name))),
        }
    }

    /// The directory a template name refers to: for `category/name`, that
    /// path below the templates directory; for a bare name, the category
    /// that holds it (see `find_template_by_name`).
    pub fn locate(
        name: &str,
        templates_dir: &str,
        categories: &Vec<CategoryProbe>,
        read_error: &Option<String>,
    ) -> (r: Result<String, TemplateError>)
        ensures
            path_result_view(r) == locate_spec(
                name@,
                templates_dir@,
                categories@,
                opt_string_view(*read_error),
            ),
    {
        if has_char(name, '/') {
            Ok(paths::join(templates_dir, name))
        } else {
            Template::find_template_by_name(categories, read_error, name)
        }
    }

    /// Loads a template by name (`category/name` or a bare `name`): the
    /// directory is located as `locate` does, and the template is made from
    /// it as `from_path` does, given what was found at that directory and
    /// the outcome of reading its `rawk.toml`.
    pub fn load(
        name: &str,
        templates_dir: &str,
        categories: &Vec<CategoryProbe>,
        read_error: &Option<String>,
        probe: PathProbe,
        config: Result<TemplateConfig, String>,
    ) -> (r: Result<Template, TemplateError>)
        ensures
            template_result_view(r) == match locate_spec(
                name@,
                templates_dir@,
                categories@,
                opt_string_view(*read_error),
            ) {
                Err(e) => Err(e),
                Ok(p) => from_path_spec(p, probe, config_result_view(config)),
            },
    {
        match Template::locate(name, templates_dir, categories, read_error) {
            Err(e) => Err(e),
            Ok(p) => Template::from_path(p, probe, config),
        }
    }
}

// ---------------------------------------------------------------------------
// Checking a template's layout
// ---------------------------------------------------------------------------

/// A template that is usable but incomplete.
#[derive(Debug, Clone)]
pub enum TemplateWarning {
    /// The template has no `README.md`; the template's path.
    MissingReadme(String),
}

/// The message a warning is reported with.
pub open spec fn warning_message(w: TemplateWarning) -> Seq<char> {
    match w {
        TemplateWarning::MissingReadme(p) => "Template missing README.md: "@ + p@,
    }
}

impl TemplateWarning {
    /// The message this warning is reported with.
    pub fn message(&self) -> (r: String)
        ensures
            r@ == warning_message(*self),
    {
        match self {
            TemplateWarning::MissingReadme(p) => prefixed("Template missing README.md: ", p.as_str()),
        }
    }
}

impl Template {
    /// The path of the template's `{{project_slug}}` directory.
    pub fn project_dir_path(&self) -> (r: String)
        ensures
            r@ == joined_path(self.path@, "{{project_slug}}"@),
    {
        paths::join(self.path.as_str(), "{{project_slug}}")
    }

    /// The path of the template's `README.md`.
    pub fn readme_path(&self) -> (r: String)
        ensures
            r@ == joined_path(self.path@, "README.md"@),
    {
        paths::join(self.path.as_str(), "README.md")
    }

    /// The path of the template's `rawk.toml`.
    pub fn config_path(&self) -> (r: String)
        ensures
            r@ == joined_path(self.path@, "rawk.toml"@),
    {
        paths::join(self.path.as_str(), "rawk.toml")
    }

    /// Checks the template's layout, given whether its `rawk.toml` exists,
    /// the outcome of reading and parsing it again, and whether its
    /// `{{project_slug}}` directory and its `README.md` exist.  The template
    /// is refused without `rawk.toml`, then when `rawk.toml` is not a valid
    /// configuration, then without the project directory; without the
    /// README it is accepted with a warning.
    pub fn validate(
        &self,
        has_config: bool,
        config: Result<TemplateConfig, String>,
        project_dir_exists: bool,
        readme_exists: bool,
    ) -> (r: Result<Option<TemplateWarning>, TemplateError>)
        ensures
            !has_config ==> (r matches Err(e) && e@ == TemplateErrorView::MissingConfig(self.path@)),
            has_config && config is Err ==> (r matches Err(e) && e@
                == TemplateErrorView::InvalidConfig(config->Err_0@)),
            has_config && config is Ok && !project_dir_exists ==> (r matches Err(e) && e@
                == TemplateErrorView::MissingProjectDir(self.path@)),
            has_config && config is Ok && project_dir_exists && readme_exists ==> r matches Ok(
                None,
            ),
            has_config && config is Ok && project_dir_exists && !readme_exists ==> (r matches Ok(
                Some(TemplateWarning::MissingReadme(p)),
            ) && p@ == self.path@),
    {
        if !has_config {
            return Err(TemplateError::MissingConfig(self.path.clone()));
        }
        if let Err(m) = config {
            return Err(TemplateError::InvalidConfig(m));
        }
        if !project_dir_exists {
            return Err(TemplateError::MissingProjectDir(self.path.clone()));
        }
        if !readme_exists {
            return Ok(Some(TemplateWarning::MissingReadme(self.path.clone())));
        }
        Ok(None)
    }
}

// ---------------------------------------------------------------------------
// Listing every template
// ---------------------------------------------------------------------------

/// An entry of a category directory: its path, whether it is a directory,
/// what was found at it, and the outcome of reading and parsing its
/// `rawk.toml`.
#[derive(Debug)]
pub struct TemplateEntry {
    pub path: String,
    pub is_dir: bool,
    pub probe: PathProbe,
    pub config: Result<TemplateConfig, String>,
}

/// An entry of the templates directory: whether it is a directory, and if
/// so, the entries it holds, in the order they were read.
#[derive(Debug)]
pub struct CategoryEntry {
    pub is_dir: bool,
    pub templates: Vec<TemplateEntry>,
}

/// A template directory that was passed over, and why.
#[derive(Debug, Clone)]
pub struct Skipped {
    pub path: String,
    pub error: TemplateError,
}

/// Every template of the templates directory, and the template
/// directories that were passed over.
#[derive(Debug, Clone)]
pub struct Listing {
    pub templates: Vec<Template>,
    pub skipped: Vec<Skipped>,
}

/// What a template directory yields.
pub open spec fn entry_outcome(e: TemplateEntry) -> Result<TemplateView, TemplateErrorView> {
    from_path_spec(e.path@, e.probe, config_result_view(e.config))
}

/// The template directories of a tree, in order: the directory entries of
/// each category that is a directory.
pub open spec fn template_dirs(categories: Seq<CategoryEntry>) -> Seq<TemplateEntry>
    decreases categories.len(),
{
    if categories.len() == 0 {
        Seq::empty()
    } else {
        template_dirs(categories.drop_last()) + if categories.last().is_dir {
            categories.last().templates@.filter(|e: TemplateEntry| e.is_dir)
        } else {
            Seq::empty()
        }
    }
}

/// The templates that these template directories yield, in order.
pub open spec fn loaded(entries: Seq<TemplateEntry>) -> Seq<TemplateView>
    decreases entries.len(),
{
    if entries.len() == 0 {
        Seq::empty()
    } else {
        match entry_outcome(entries.last()) {
            Ok(t) => loaded(entries.drop_last()).push(t),
            Err(_) => loaded(entries.drop_last()),
        }
    }
}

/// The directories among these that yield no template, with why, in order.
pub open spec fn passed_over(entries: Seq<TemplateEntry>) -> Seq<(Seq<char>, TemplateErrorView)>
    decreases entries.len(),
{
    if entries.len() == 0 {
        Seq::empty()
    } else {
        match entry_outcome(entries.last()) {
            Ok(_) => passed_over(entries.drop_last()),
            Err(e) => passed_over(entries.drop_last()).push((entries.last().path@, e)),
        }
    }
}

/// The views of a sequence of skipped directories.
pub open spec fn skipped_views(s: Seq<Skipped>) -> Seq<(Seq<char>, TemplateErrorView)> {
    s.map_values(|k: Skipped| (k.path@, k.error@))
}

proof fn lemma_template_dirs_step(cats: Seq<CategoryEntry>, k: int)
    requires
        0 <= k < cats.len(),
    ensures
        template_dirs(cats.take(k + 1)) == template_dirs(cats.take(k)) + if cats[k].is_dir {
            cats[k].templates@.filter(|e: TemplateEntry| e.is_dir)
        } else {
            Seq::empty()
        },
{
    assert(cats.take(k + 1).drop_last() =~= cats.take(k));
    assert(cats.take(k + 1).last() == cats[k]);
}

proof fn lemma_dir_filter_step(es: Seq<TemplateEntry>, j: int)
    requires
        0 <= j < es.len(),
    ensures
        es.take(j + 1).filter(|e: TemplateEntry| e.is_dir) == if es[j].is_dir {
            es.take(j).filter(|e: TemplateEntry| e.is_dir).push(es[j])
        } else {
            es.take(j).filter(|e: TemplateEntry| e.is_dir)
        },
{
    reveal_with_fuel(Seq::filter, 1);
    assert(es.take(j + 1).drop_last() =~= es.take(j));
}

impl Template {
    /// Lists every template of a templates directory, given its entries.
    /// Entries that are not directories are passed over in silence, both
    /// among the categories and among the templates of a category; a
    /// template directory that yields no template (see `from_path`) is
    /// passed over and reported in `skipped`.  Both lists keep the order in
    /// which the entries were read.
    pub fn list_all(categories: Vec<CategoryEntry>) -> (r: Listing)
        ensures
            template_views(r.templates@) == loaded(template_dirs(categories@)),
            skipped_views(r.skipped@) == passed_over(template_dirs(categories@)),
    {
        let ghost cats = categories@;
        let n_cats: usize = categories.len();
        let mut rest: Vec<CategoryEntry> = categories;
        let mut templates: Vec<Template> = Vec::new();
        let mut skipped: Vec<Skipped> = Vec::new();
        let ghost mut done: Seq<TemplateEntry> = Seq::empty();
        let mut k: usize = 0;
        assert(cats.take(0) =~= Seq::<CategoryEntry>::empty());
        while rest.len() > 0
            invariant
                k <= cats.len(),
                cats.len() == n_cats,
                rest@ == cats.skip(k as int),
                done == template_dirs(cats.take(k as int)),
                template_views(templates@) == loaded(done),
                skipped_views(skipped@) == passed_over(done),
            decreases rest@.len(),
        {
            let category = rest.remove(0);
            assert(category == cats[k as int]);
            proof {
                lemma_template_dirs_step(cats, k as int);
            }
            if category.is_dir {
                let ghost es = category.templates@;
                let n_es: usize = category.templates.len();
                let ghost start = done;
                let mut entries: Vec<TemplateEntry> = category.templates;
                let mut j: usize = 0;
                assert(es.take(0).filter(|e: TemplateEntry| e.is_dir) =~= Seq::<TemplateEntry>::empty());
                assert(start + Seq::<TemplateEntry>::empty() =~= start);
                while entries.len() > 0
                    invariant
                        j <= es.len(),
                        es.len() == n_es,
                        entries@ == es.skip(j as int),
                        done == start + es.take(j as int).filter(|e: TemplateEntry| e.is_dir),
                        template_views(templates@) == loaded(done),
                        skipped_views(skipped@) == passed_over(done),
                    decreases entries@.len(),
                {
                    let entry = entries.remove(0);
                    assert(entry == es[j as int]);
                    proof {
                        lemma_dir_filter_step(es, j as int);
                    }
                    if entry.is_dir {
                        let ghost before = done;
                        proof {
                            done = done.push(entry);
                        }
                        assert(done.drop_last() =~= before);
                        let path = entry.path.clone();
                        match Template::from_path(entry.path, entry.probe, entry.config) {
                            Ok(t) => {
                                let ghost tv = templates@;
                                templates.push(t);
                                assert(template_views(templates@) =~= template_views(tv).push(t@));
                            },
                            Err(e) => {
                                let ghost sv = skipped@;
                                skipped.push(Skipped { path, error: e });
                                assert(skipped_views(skipped@) =~= skipped_views(sv).push(
                                    (path@, e@),
                                ));
                            },
                        }
                    }
                    assert(es.skip(j as int).drop_first() =~= es.skip(j + 1));
                    j += 1;
                }
                assert(es.take(es.len() as int) =~= es);
            }
            assert(cats.skip(k as int).drop_first() =~= cats.skip(k + 1));
            k += 1;
        }
        assert(cats.take(cats.len() as int) =~= cats);
        Listing { templates, skipped }
    }
}

// ---------------------------------------------------------------------------
// Searching
// ---------------------------------------------------------------------------

/// A template matches a (lower-case) query when the query occurs in the
/// lower-cased template name, in its lower-cased description, or in one of
/// its lower-cased tags.
pub open spec fn matches_query(t: TemplateView, query: Seq<char>) -> bool {
    ||| has_substring(lowercase(t.name), query)
    ||| has_substring(lowercase(t.config.template.description), query)
    ||| exists|i: int|
        0 <= i < t.config.template.tags.len() && #[trigger] has_substring(
            lowercase(t.config.template.tags[i]),
            query,
        )
}

impl Template {
    /// Whether this template matches a query that is already lower case.
    pub fn matches_query(&self, query_lower: &str) -> (r: bool)
        ensures
            r == matches_query(self@, query_lower@),
    {
        if contains_str(to_lowercase(self.name.as_str()).as_str(), query_lower) {
            return true;
        }
        if contains_str(to_lowercase(self.config.template.description.as_str()).as_str(), query_lower) {
            return true;
        }
        let tags = &self.config.template.tags;
        let mut i: usize = 0;
        while i < tags.len()
            invariant
                i <= tags@.len(),
                tags@ == self.config.template.tags@,
                forall|k: int|
                    0 <= k < i ==> !has_substring(lowercase(#[trigger] tags@[k]@), query_lower@),
            decreases tags@.len() - i,
        {
            if contains_str(to_lowercase(tags[i].as_str()).as_str(), query_lower) {
                assert(self@.config.template.tags[i as int] == tags@[i as int]@);
                return true;
            }
            i += 1;
        }
        assert forall|k: int| 0 <= k < self@.config.template.tags.len() implies !has_substring(
            lowercase(#[trigger] self@.config.template.tags[k]),
            query_lower@,
        ) by {
            assert(self@.config.template.tags[k] == tags@[k]@);
        }
        false
    }

    /// The templates that match a search query, in their order: the query
    /// is lower-cased and looked for in each template's lower-cased name,
    /// description and tags.
    ///
    /// An empty query finds every template; an ASCII query is lower-cased
    /// by turning `A`-`Z` into `a`-`z`.
    pub fn find(templates: Vec<Template>, query: &str) -> (r: Vec<Template>)
        ensures
            r@ == templates@.filter(|t: Template| matches_query(t@, lowercase(query@))),
            query@.len() == 0 ==> r@ == templates@,
            all_ascii(query@) ==> r@ == templates@.filter(
                |t: Template| matches_query(t@, ascii_lower(query@)),
            ),
    {
        let q = to_lowercase(query);
        proof {
            if query@.len() == 0 {
                assert(ascii_lower(query@) =~= Seq::<char>::empty());
                assert forall|t: Template| matches_query(t@, lowercase(query@)) by {
                    lemma_empty_substring(lowercase(t@.name));
                }
                lemma_filter_all(templates@, |t: Template| matches_query(t@, lowercase(query@)));
            }
            if all_ascii(query@) {
                assert((|t: Template| matches_query(t@, lowercase(query@))) =~= (|t: Template|
                    matches_query(t@, ascii_lower(query@))));
            }
        }
        let ghost all = templates@;
        let n: usize = templates.len();
        let ghost pred = |t: Template| matches_query(t@, lowercase(query@));
        let mut rest: Vec<Template> = templates;
        let mut out: Vec<Template> = Vec::new();
        let mut k: usize = 0;
        assert(all.take(0).filter(pred) =~= Seq::<Template>::empty());
        while rest.len() > 0
            invariant
                k <= all.len(),
                all.len() == n,
                rest@ == all.skip(k as int),
                q@ == lowercase(query@),
                pred == (|t: Template| matches_query(t@, lowercase(query@))),
                out@ == all.take(k as int).filter(pred),
            decreases rest@.len(),
        {
            let t = rest.remove(0);
            assert(t == all[k as int]);
            proof {
                reveal_with_fuel(Seq::filter, 1);
                assert(all.take(k + 1).drop_last() =~= all.take(k as int));
            }
            if t.matches_query(q.as_str()) {
                out.push(t);
            }
            assert(all.skip(k as int).drop_first() =~= all.skip(k + 1));
            k += 1;
        }
        assert(all.take(all.len() as int) =~= all);
        out
    }
}

// ---------------------------------------------------------------------------
// Laws
// ---------------------------------------------------------------------------

/// Every template directory of a listing is accounted for exactly once:
/// the templates loaded and the directories passed over are as many as
/// the template directories.
pub proof fn law_listing_accounts_for_every_directory(categories: Seq<CategoryEntry>)
    ensures
        loaded(template_dirs(categories)).len() + passed_over(template_dirs(categories)).len()
            == template_dirs(categories).len(),
{
    lemma_loaded_plus_passed(template_dirs(categories));
}

/// A template directory yields a template.
pub open spec fn yields(e: TemplateEntry) -> bool {
    entry_outcome(e) is Ok
}

/// The template a template directory yields.
pub open spec fn yielded(e: TemplateEntry) -> TemplateView {
    entry_outcome(e)->Ok_0
}

proof fn lemma_loaded_is_yield(es: Seq<TemplateEntry>)
    ensures
        loaded(es) == es.filter(|e: TemplateEntry| yields(e)).map_values(
            |e: TemplateEntry| yielded(e),
        ),
    decreases es.len(),
{
    reveal_with_fuel(Seq::filter, 1);
    if es.len() > 0 {
        lemma_loaded_is_yield(es.drop_last());
        let f = es.drop_last().filter(|e: TemplateEntry| yields(e));
        if yields(es.last()) {
            assert(f.push(es.last()).map_values(|e: TemplateEntry| yielded(e)) =~= f.map_values(
                |e: TemplateEntry| yielded(e),
            ).push(yielded(es.last())));
        }
    }
}

/// Every listed template is what its own directory yields, in order: the
/// listing is, in order, the templates yielded by the template directories
/// that yield one, and each listed template has its directory's path.
pub proof fn law_listed_templates_are_what_their_directories_yield(categories: Seq<CategoryEntry>)
    ensures
        ({
            let es = template_dirs(categories);
            let good = es.filter(|e: TemplateEntry| yields(e));
            &&& loaded(es) == good.map_values(|e: TemplateEntry| yielded(e))
            &&& forall|k: int|
                0 <= k < good.len() ==> entry_outcome(#[trigger] good[k]) == Ok::<
                    TemplateView,
                    TemplateErrorView,
                >(loaded(es)[k]) && loaded(es)[k].path == good[k].path@
        }),
{
    let es = template_dirs(categories);
    lemma_loaded_is_yield(es);
    let good = es.filter(|e: TemplateEntry| yields(e));
    assert forall|k: int| 0 <= k < good.len() implies entry_outcome(#[trigger] good[k]) == Ok::<
        TemplateView,
        TemplateErrorView,
    >(loaded(es)[k]) && loaded(es)[k].path == good[k].path@ by {
        es.filter_lemma(|e: TemplateEntry| yields(e));
        assert(yields(good[k]));
    }
}

/// The directory entries of a tree: for each category that is a
/// directory, in order, its entries that are directories, in order.
pub open spec fn directory_entries(categories: Seq<CategoryEntry>) -> Seq<Seq<TemplateEntry>> {
    categories.filter(|c: CategoryEntry| c.is_dir).map_values(
        |c: CategoryEntry| c.templates@.filter(|e: TemplateEntry| e.is_dir),
    )
}

/// The pieces of `ss`, one after another.
pub open spec fn concat_all(ss: Seq<Seq<TemplateEntry>>) -> Seq<TemplateEntry>
    decreases ss.len(),
{
    if ss.len() == 0 {
        Seq::empty()
    } else {
        concat_all(ss.drop_last()) + ss.last()
    }
}

proof fn lemma_template_dirs_concat(cats: Seq<CategoryEntry>)
    ensures
        template_dirs(cats) == concat_all(directory_entries(cats)),
    decreases cats.len(),
{
    reveal_with_fuel(Seq::filter, 1);
    if cats.len() > 0 {
        lemma_template_dirs_concat(cats.drop_last());
        let f = cats.drop_last().filter(|c: CategoryEntry| c.is_dir);
        let m = |c: CategoryEntry| c.templates@.filter(|e: TemplateEntry| e.is_dir);
        if cats.last().is_dir {
            assert(f.push(cats.last()).map_values(m) =~= f.map_values(m).push(m(cats.last())));
            assert(f.map_values(m).push(m(cats.last())).drop_last() =~= f.map_values(m));
        } else {
            assert(template_dirs(cats) =~= template_dirs(cats.drop_last()));
        }
    }
}

/// Entries that are not directories change nothing in a listing: two
/// trees with the same directory categories, holding the same directory
/// entries in the same order, list the same templates and pass over the
/// same directories, whatever files lie among them.
pub proof fn law_files_change_nothing_in_a_listing(c1: Seq<CategoryEntry>, c2: Seq<CategoryEntry>)
    requires
        directory_entries(c1) == directory_entries(c2),
    ensures
        template_dirs(c1) == template_dirs(c2),
        loaded(template_dirs(c1)) == loaded(template_dirs(c2)),
        passed_over(template_dirs(c1)) == passed_over(template_dirs(c2)),
{
    lemma_template_dirs_concat(c1);
    lemma_template_dirs_concat(c2);
}

proof fn lemma_loaded_plus_passed(es: Seq<TemplateEntry>)
    ensures
        loaded(es).len() + passed_over(es).len() == es.len(),
    decreases es.len(),
{
    if es.len() > 0 {
        lemma_loaded_plus_passed(es.drop_last());
    }
}

proof fn lemma_filter_all(s: Seq<Template>, pred: spec_fn(Template) -> bool)
    requires
        forall|t: Template| #[trigger] pred(t),
    ensures
        s.filter(pred) == s,
    decreases s.len(),
{
    reveal_with_fuel(Seq::filter, 1);
    if s.len() > 0 {
        lemma_filter_all(s.drop_last(), pred);
        assert(s.drop_last().push(s.last()) =~= s);
    }
}

proof fn lemma_filter_narrower(s: Seq<Template>, wide: spec_fn(Template) -> bool, narrow: spec_fn(Template) -> bool)
    requires
        forall|t: Template| #[trigger] narrow(t) ==> wide(t),
    ensures
        s.filter(narrow) == s.filter(wide).filter(narrow),
    decreases s.len(),
{
    reveal_with_fuel(Seq::filter, 1);
    if s.len() > 0 {
        lemma_filter_narrower(s.drop_last(), wide, narrow);
        let w = s.drop_last().filter(wide);
        if wide(s.last()) {
            assert(s.filter(wide) == w.push(s.last()));
            assert(w.push(s.last()).drop_last() =~= w);
        }
    }
}

/// A query that contains another never finds more templates: every
/// template that the longer query finds, the shorter one finds too, and the
/// longer query's results are the shorter query's results searched again.
pub proof fn law_longer_query_finds_no_more(templates: Seq<Template>, shorter: Seq<char>, longer: Seq<char>)
    requires
        has_substring(lowercase(longer), lowercase(shorter)),
    ensures
        ({
            let wide = |t: Template| matches_query(t@, lowercase(shorter));
            let narrow = |t: Template| matches_query(t@, lowercase(longer));
            &&& forall|t: TemplateView| #[trigger] matches_query(t, lowercase(longer)) ==> matches_query(
                t,
                lowercase(shorter),
            )
            &&& templates.filter(narrow) == templates.filter(wide).filter(narrow)
        }),
{
    let l = lowercase(longer);
    let sh = lowercase(shorter);
    assert forall|t: TemplateView| #[trigger] matches_query(t, l) implies matches_query(t, sh) by {
        if has_substring(lowercase(t.name), l) {
            lemma_substring_transitive(lowercase(t.name), l, sh);
        } else if has_substring(lowercase(t.config.template.description), l) {
            lemma_substring_transitive(lowercase(t.config.template.description), l, sh);
        } else {
            let i = choose|i: int|
                0 <= i < t.config.template.tags.len() && #[trigger] has_substring(
                    lowercase(t.config.template.tags[i]),
                    l,
                );
            lemma_substring_transitive(lowercase(t.config.template.tags[i]), l, sh);
        }
    }
    let wide = |t: Template| matches_query(t@, sh);
    let narrow = |t: Template| matches_query(t@, l);
    assert forall|t: Template| #[trigger] narrow(t) implies wide(t) by {
        assert(matches_query(t@, l));
    }
    lemma_filter_narrower(templates, wide, narrow);
}

/// Search ignores ASCII case: two ASCII queries that agree once their
/// capital letters are made small find the same templates.
pub proof fn law_search_ignores_ascii_case(templates: Seq<Template>, q1: Seq<char>, q2: Seq<char>)
    requires
        all_ascii(q1),
        all_ascii(q2),
        ascii_lower(q1) == ascii_lower(q2),
    ensures
        templates.filter(|t: Template| matches_query(t@, ascii_lower(q1))) == templates.filter(
            |t: Template| matches_query(t@, ascii_lower(q2)),
        ),
{
    assert((|t: Template| matches_query(t@, ascii_lower(q1))) =~= (|t: Template|
        matches_query(t@, ascii_lower(q2))));
}

proof fn lemma_filter_idempotent(s: Seq<Template>, pred: spec_fn(Template) -> bool)
    ensures
        s.filter(pred).filter(pred) == s.filter(pred),
    decreases s.len(),
{
    reveal_with_fuel(Seq::filter, 1);
    if s.len() > 0 {
        lemma_filter_idempotent(s.drop_last(), pred);
        let f = s.drop_last().filter(pred);
        if pred(s.last()) {
            assert(s.filter(pred) == f.push(s.last()));
            assert(f.push(s.last()).drop_last() =~= f);
        }
    }
}

/// Searching the results of a search again with the same query gives the
/// same results: every result matches, and nothing else does.
pub proof fn law_search_is_idempotent(templates: Seq<Template>, query: Seq<char>)
    ensures
        ({
            let pred = |t: Template| matches_query(t@, lowercase(query));
            templates.filter(pred).filter(pred) == templates.filter(pred)
        }),
{
    let pred = |t: Template| matches_query(t@, lowercase(query));
    lemma_filter_idempotent(templates, pred);
}

/// Every template a search returns matches the query, and every template
/// that matches it is returned.
pub proof fn law_search_returns_exactly_the_matches(templates: Seq<Template>, query: Seq<char>)
    ensures
        ({
            let pred = |t: Template| matches_query(t@, lowercase(query));
            &&& forall|t: Template| #[trigger] templates.filter(pred).contains(t) ==> matches_query(
                t@,
                lowercase(query),
            )
            &&& forall|t: Template|
                #[trigger] templates.contains(t) && matches_query(t@, lowercase(query))
                    ==> templates.filter(pred).contains(t)
        }),
{
    let pred = |t: Template| matches_query(t@, lowercase(query));
    assert forall|t: Template| #[trigger] templates.filter(pred).contains(t) implies matches_query(
        t@,
        lowercase(query),
    ) by {
        templates.filter_lemma(pred);
        let k = choose|k: int| 0 <= k < templates.filter(pred).len() && templates.filter(pred)[k] == t;
        assert(pred(templates.filter(pred)[k]));
    }
    assert forall|t: Template|
        #[trigger] templates.contains(t) && matches_query(t@, lowercase(query)) implies templates.filter(
        pred,
    ).contains(t) by {
        templates.filter_lemma(pred);
        let k = choose|k: int| 0 <= k < templates.len() && templates[k] == t;
        assert(pred(templates[k]));
    }
}

/// A name with `/` in it always resolves to that path below the templates
/// directory, whatever the directory holds; a bare name resolves into the
/// first category that holds it.
pub proof fn law_hierarchical_names_resolve_below_the_directory(
    name: Seq<char>,
    templates_dir: Seq<char>,
    categories: Seq<CategoryProbe>,
    read_error: Option<Seq<char>>,
)
    ensures
        name.contains('/') ==> locate_spec(name, templates_dir, categories, read_error) == Ok::<
            Seq<char>,
            TemplateErrorView,
        >(joined_path(templates_dir, name)),
        !name.contains('/') ==> (locate_spec(name, templates_dir, categories, read_error) matches Ok(
            p,
        ) ==> exists|i: int|
            0 <= i < categories.len() && holds(categories[i]) && p == joined_path(
                #[trigger] categories[i].path@,
                name,
            ) && forall|j: int| 0 <= j < i ==> !holds(#[trigger] categories[j])),
{
    if !name.contains('/') {
        lemma_first_holding_bounds(categories, 0);
        if let Some(i) = first_holding(categories, 0) {
            lemma_first_holding_is_first(categories, 0);
        }
    }
}

proof fn lemma_first_holding_is_first(cats: Seq<CategoryProbe>, i: int)
    requires
        0 <= i,
    ensures
        first_holding(cats, i) matches Some(k) ==> forall|j: int| i <= j < k ==> !holds(
            #[trigger] cats[j],
        ),
    decreases cats.len() - i,
{
    if i < cats.len() && !holds(cats[i]) {
        lemma_first_holding_is_first(cats, i + 1);
    }
}

/// The templates directory is chosen by priority: a directory that the
/// environment names and that exists is the result whatever else exists;
/// failing that, `templates` when it exists in the current directory;
/// failing that, the directory next to the executable's directory when it
/// exists; failing all, `templates`.
pub proof fn law_templates_dir_priority(
    from_env: Option<(Seq<char>, bool)>,
    local_is_dir: bool,
    beside_exe: Option<(Seq<char>, bool)>,
)
    ensures
        ({
            let r = templates_dir_spec(from_env, local_is_dir, beside_exe);
            let env_ok = from_env matches Some((_, d)) && d;
            let exe_ok = beside_exe matches Some((_, d)) && d;
            &&& from_env matches Some((p, true)) ==> r == p
            &&& !env_ok && local_is_dir ==> r == "templates"@
            &&& !env_ok && !local_is_dir ==> (beside_exe matches Some((q, true)) ==> r == q)
            &&& !env_ok && !local_is_dir && !exe_ok ==> r == "templates"@
        }),
{
}

/// A directory that exists, is a directory and holds `rawk.toml` read as
/// `c` yields the template named after the directory's final component
/// when it has one: the template holds the directory's path and exactly the
/// configuration `c`, and its category is the parent directory's name, or
/// `other` when the path has no named parent.
pub proof fn law_template_keeps_its_directory_and_configuration(
    path: Seq<char>,
    probe: PathProbe,
    c: TemplateConfigView,
)
    requires
        probe.exists,
        probe.is_dir,
        probe.has_config,
        path_file_name(path) is Some,
    ensures
        ({
            let r = from_path_spec(path, probe, Ok(c));
            &&& r is Ok
            &&& r->Ok_0.config == c
            &&& r->Ok_0.path == path
            &&& r->Ok_0.name == path_file_name(path)->0
            &&& path_parent(path) matches Some(pp) ==> (path_file_name(pp) matches Some(n)
                ==> r->Ok_0.category == n)
            &&& !(path_parent(path) matches Some(pp) && path_file_name(pp) is Some)
                ==> r->Ok_0.category == "other"@
        }),
{
}

/// A template directory that lacks something yields no template: a
/// missing path, a path that is no directory, a directory without
/// `rawk.toml`, a configuration that could not be read, or a path without
/// a final component each give an error.
pub proof fn law_incomplete_directory_yields_no_template(
    path: Seq<char>,
    probe: PathProbe,
    config: Result<TemplateConfigView, Seq<char>>,
)
    requires
        !probe.exists || !probe.is_dir || !probe.has_config || config is Err || path_file_name(
            path,
        ) is None,
    ensures
        from_path_spec(path, probe, config) is Err,
{
}

/// Search looks in the name, the description and every tag: a template is
/// found when the lower-cased query occurs in its lower-cased name, in its
/// lower-cased description, or in any one of its lower-cased tags; and it is
/// found only then.
pub proof fn law_search_looks_in_name_description_and_every_tag(
    templates: Seq<Template>,
    query: Seq<char>,
    t: Template,
)
    requires
        templates.contains(t),
    ensures
        ({
            let q = lowercase(query);
            let found = templates.filter(|x: Template| matches_query(x@, q)).contains(t);
            &&& has_substring(lowercase(t.name@), q) ==> found
            &&& has_substring(lowercase(t.config.template.description@), q) ==> found
            &&& forall|i: int|
                0 <= i < t.config.template.tags@.len() && has_substring(
                    lowercase(#[trigger] t.config.template.tags@[i]@),
                    q,
                ) ==> found
            &&& found ==> (has_substring(lowercase(t.name@), q) || has_substring(
                lowercase(t.config.template.description@),
                q,
            ) || exists|i: int|
                0 <= i < t.config.template.tags@.len() && has_substring(
                    lowercase(#[trigger] t.config.template.tags@[i]@),
                    q,
                ))
        }),
{
    let q = lowercase(query);
    let pred = |x: Template| matches_query(x@, q);
    templates.filter_lemma(pred);
    let k = choose|k: int| 0 <= k < templates.len() && templates[k] == t;
    assert forall|i: int|
        0 <= i < t.config.template.tags@.len() && has_substring(
            lowercase(#[trigger] t.config.template.tags@[i]@),
            q,
        ) implies templates.filter(pred).contains(t) by {
        assert(t@.config.template.tags[i] == t.config.template.tags@[i]@);
        assert(pred(templates[k]));
    }
    if has_substring(lowercase(t.name@), q) || has_substring(
        lowercase(t.config.template.description@),
        q,
    ) {
        assert(pred(templates[k]));
    }
    if templates.filter(pred).contains(t) {
        let j = choose|j: int|
            0 <= j < templates.filter(pred).len() && templates.filter(pred)[j] == t;
        assert(pred(templates.filter(pred)[j]));
        if !has_substring(lowercase(t.name@), q) && !has_substring(
            lowercase(t.config.template.description@),
            q,
        ) {
            let i = choose|i: int|
                0 <= i < t@.config.template.tags.len() && #[trigger] has_substring(
                    lowercase(t@.config.template.tags[i]),
                    q,
                );
            assert(t@.config.template.tags[i] == t.config.template.tags@[i]@);
        }
    }
}

/// Each listed template is exactly the template that loading its own
/// directory gives, in the order of the directories: the listing holds, in
/// order, one template for each template directory that yields one; that
/// template has the directory's path, is named after the directory's final
/// component, holds the directory's configuration unchanged, and has the
/// parent directory's name (or `other`) as its category.
pub proof fn law_listed_template_is_its_directory_loaded(categories: Seq<CategoryEntry>)
    ensures
        ({
            let es = template_dirs(categories);
            let good = es.filter(
                |e: TemplateEntry| from_path_spec(e.path@, e.probe, config_result_view(e.config)) is Ok,
            );
            &&& loaded(es).len() == good.len()
            &&& forall|k: int|
                0 <= k < good.len() ==> {
                    let e = #[trigger] good[k];
                    let t = loaded(es)[k];
                    &&& from_path_spec(e.path@, e.probe, config_result_view(e.config)) == Ok::<
                        TemplateView,
                        TemplateErrorView,
                    >(t)
                    &&& t.path == e.path@
                    &&& Some(t.name) == path_file_name(e.path@)
                    &&& e.config matches Ok(c) && t.config == c@
                    &&& path_parent(e.path@) matches Some(pp) ==> (path_file_name(pp) matches Some(n)
                        ==> t.category == n)
                    &&& !(path_parent(e.path@) matches Some(pp) && path_file_name(pp) is Some)
                        ==> t.category == "other"@
                }
        }),
{
    let es = template_dirs(categories);
    lemma_loaded_is_yield(es);
    let p1 = |e: TemplateEntry| yields(e);
    let p2 = |e: TemplateEntry| from_path_spec(e.path@, e.probe, config_result_view(e.config)) is Ok;
    assert(p1 =~= p2);
    let good = es.filter(p2);
    assert forall|k: int| 0 <= k < good.len() implies {
        let e = #[trigger] good[k];
        let t = loaded(es)[k];
        &&& from_path_spec(e.path@, e.probe, config_result_view(e.config)) == Ok::<
            TemplateView,
            TemplateErrorView,
        >(t)
        &&& t.path == e.path@
        &&& Some(t.name) == path_file_name(e.path@)
        &&& e.config matches Ok(c) && t.config == c@
        &&& path_parent(e.path@) matches Some(pp) ==> (path_file_name(pp) matches Some(n)
            ==> t.category == n)
        &&& !(path_parent(e.path@) matches Some(pp) && path_file_name(pp) is Some)
            ==> t.category == "other"@
    } by {
        es.filter_lemma(p2);
        assert(p2(good[k]));
    }
}

} // verus!
