//! The variables a template is rendered with, and rendering a template
//! source with them (by minijinja).

use crate::text::str_eq;
use vstd::prelude::*;

verus! {

/// The value of a template variable.
#[derive(Debug, Clone)]
pub enum ContextValue {
    Str(String),
    Bool(bool),
}

pub enum ContextValueView {
    Str(Seq<char>),
    Bool(bool),
}

impl View for ContextValue {
    type V = ContextValueView;

    open spec fn view(&self) -> ContextValueView {
        match self {
            ContextValue::Str(s) => ContextValueView::Str(s@),
            ContextValue::Bool(b) => ContextValueView::Bool(*b),
        }
    }
}

/// The variables a template is rendered with: each name bound to one value.
#[derive(Debug)]
pub struct RenderContext {
    entries: Vec<(String, ContextValue)>,
}

/// Entry `i` of `entries` binds `key`.
pub open spec fn binds(entries: Seq<(String, ContextValue)>, i: int, key: Seq<char>) -> bool {
    0 <= i < entries.len() && entries[i].0@ == key
}

/// No name is bound twice in `es`.
pub open spec fn keys_distinct(es: Seq<(String, ContextValue)>) -> bool {
    forall|i: int, j: int|
        0 <= i < es.len() && 0 <= j < es.len() && i != j ==> #[trigger] es[i].0@
            != #[trigger] es[j].0@
}

/// Each name bound in `es`, with its value.
pub open spec fn entries_map(es: Seq<(String, ContextValue)>) -> Map<Seq<char>, ContextValueView> {
    Map::new(
        |k: Seq<char>| exists|i: int| binds(es, i, k),
        |k: Seq<char>| es[choose|i: int| binds(es, i, k)].1@,
    )
}

proof fn lemma_lookup(es: Seq<(String, ContextValue)>, i: int)
    requires
        keys_distinct(es),
        0 <= i < es.len(),
    ensures
        entries_map(es).dom().contains(es[i].0@),
        entries_map(es)[es[i].0@] == es[i].1@,
{
    let k = es[i].0@;
    assert(binds(es, i, k));
    let c = choose|c: int| binds(es, c, k);
    assert(c == i);
}

impl RenderContext {
    /// No name is bound twice.
    #[verifier::type_invariant]
    spec fn wf(self) -> bool {
        keys_distinct(self.entries@)
    }
}

impl View for RenderContext {
    type V = Map<Seq<char>, ContextValueView>;

    /// Each bound name and its value.
    closed spec fn view(&self) -> Map<Seq<char>, ContextValueView> {
        entries_map(self.entries@)
    }
}

impl RenderContext {
    /// A context with no variables.
    pub fn empty() -> (r: RenderContext)
        ensures
            r@ == Map::<Seq<char>, ContextValueView>::empty(),
    {
        let r = RenderContext { entries: Vec::new() };
        assert(r@ =~= Map::<Seq<char>, ContextValueView>::empty());
        r
    }

    /// A context for a new project: its name, its slug (the name used for
    /// its directory), its description, and its author's name and e-mail,
    /// bound to `project_name`, `project_slug`, `description`, `author_name`
    /// and `author_email`.
    pub fn new(
        project_name: String,
        project_slug: String,
        description: String,
        author_name: String,
        author_email: String,
    ) -> (r: RenderContext)
        ensures
            r@ == Map::<Seq<char>, ContextValueView>::empty().insert(
                "project_name"@,
                ContextValueView::Str(project_name@),
            ).insert("project_slug"@, ContextValueView::Str(project_slug@)).insert(
                "description"@,
                ContextValueView::Str(description@),
            ).insert("author_name"@, ContextValueView::Str(author_name@)).insert(
                "author_email"@,
                ContextValueView::Str(author_email@),
            ),
    {
        let mut r = RenderContext::empty();
        r.add_variable(String::from_str("project_name"), ContextValue::Str(project_name));
        r.add_variable(String::from_str("project_slug"), ContextValue::Str(project_slug));
        r.add_variable(String::from_str("description"), ContextValue::Str(description));
        r.add_variable(String::from_str("author_name"), ContextValue::Str(author_name));
        r.add_variable(String::from_str("author_email"), ContextValue::Str(author_email));
        r
    }

    /// Binds `key` to `value`, replacing the value it had.
    pub fn add_variable(&mut self, key: String, value: ContextValue)
        ensures
            final(self)@ == old(self)@.insert(key@, value@),
    {
        proof {
            use_type_invariant(&*self);
        }
        let ghost before = *self;
        let mut entries: Vec<(String, ContextValue)> = Vec::new();
        std::mem::swap(&mut entries, &mut self.entries);
        let ghost es = entries@;
        assert(es == before.entries@);
        let mut i: usize = 0;
        while i < entries.len()
            invariant
                i <= entries@.len(),
                entries@ == es,
                forall|j: int| 0 <= j < i ==> #[trigger] es[j].0@ != key@,
            ensures
                i <= entries@.len(),
                forall|j: int| 0 <= j < i ==> #[trigger] es[j].0@ != key@,
                i < entries@.len() ==> es[i as int].0@ == key@,
            decreases entries@.len() - i,
        {
            if str_eq(entries[i].0.as_str(), key.as_str()) {
                break;
            }
            i += 1;
        }
        let ghost kv = key@;
        let ghost vv = value@;
        if i < entries.len() {
            assert(es[i as int].0@ == kv);
            entries.set(i, (key, value));
            let ghost ns = entries@;
            assert forall|a: int, b: int|
                0 <= a < ns.len() && 0 <= b < ns.len() && a != b implies #[trigger] ns[a].0@
                != #[trigger] ns[b].0@ by {
                if a != i && b != i {
                    assert(ns[a] == es[a] && ns[b] == es[b]);
                } else if a == i {
                    assert(ns[b] == es[b]);
                    assert(es[i as int].0@ != es[b].0@);
                } else {
                    assert(ns[a] == es[a]);
                    assert(es[i as int].0@ != es[a].0@);
                }
            }
            self.entries = entries;
            proof {
                let after = entries_map(ns);
                assert forall|k: Seq<char>| #[trigger] after.dom().contains(k) == entries_map(es).insert(
                    kv,
                    vv,
                ).dom().contains(k) by {
                    if exists|j: int| binds(es, j, k) {
                        let j = choose|j: int| binds(es, j, k);
                        assert(binds(ns, j, k));
                    }
                    if k == kv {
                        assert(binds(ns, i as int, k));
                    }
                    if exists|j: int| binds(ns, j, k) {
                        let j = choose|j: int| binds(ns, j, k);
                        if j != i {
                            assert(binds(es, j, k));
                        }
                    }
                }
                assert forall|k: Seq<char>| #[trigger] after.dom().contains(k) implies after[k]
                    == entries_map(es).insert(kv, vv)[k] by {
                    let j = choose|j: int| binds(ns, j, k);
                    lemma_lookup(ns, j);
                    if j != i {
                        assert(ns[j] == es[j]);
                        lemma_lookup(es, j);
                    }
                }
                assert(after =~= entries_map(es).insert(kv, vv));
            }
        } else {
            entries.push((key, value));
            let ghost ns = entries@;
            assert forall|a: int, b: int|
                0 <= a < ns.len() && 0 <= b < ns.len() && a != b implies #[trigger] ns[a].0@
                != #[trigger] ns[b].0@ by {
                if a < es.len() && b < es.len() {
                    assert(ns[a] == es[a] && ns[b] == es[b]);
                } else if a < es.len() {
                    assert(ns[a] == es[a]);
                } else {
                    assert(ns[b] == es[b]);
                }
            }
            self.entries = entries;
            proof {
                let after = entries_map(ns);
                assert forall|k: Seq<char>| #[trigger] after.dom().contains(k) == entries_map(es).insert(
                    kv,
                    vv,
                ).dom().contains(k) by {
                    if exists|j: int| binds(es, j, k) {
                        let j = choose|j: int| binds(es, j, k);
                        assert(binds(ns, j, k));
                    }
                    if k == kv {
                        assert(binds(ns, es.len() as int, k));
                    }
                    if exists|j: int| binds(ns, j, k) {
                        let j = choose|j: int| binds(ns, j, k);
                        if j < es.len() {
                            assert(binds(es, j, k));
                        }
                    }
                }
                assert forall|k: Seq<char>| #[trigger] after.dom().contains(k) implies after[k]
                    == entries_map(es).insert(kv, vv)[k] by {
                    let j = choose|j: int| binds(ns, j, k);
                    lemma_lookup(ns, j);
                    if j < es.len() {
                        assert(ns[j] == es[j]);
                        lemma_lookup(es, j);
                    }
                }
                assert(after =~= entries_map(es).insert(kv, vv));
            }
        }
    }

    /// The value bound to `key`, if any.
    pub fn get(&self, key: &str) -> (r: Option<&ContextValue>)
        ensures
            r matches Some(v) ==> self@.dom().contains(key@) && self@[key@] == v@,
            r is None ==> !self@.dom().contains(key@),
    {
        proof {
            use_type_invariant(self);
        }
        let mut i: usize = 0;
        while i < self.entries.len()
            invariant
                i <= self.entries@.len(),
                keys_distinct(self.entries@),
                forall|j: int| 0 <= j < i ==> #[trigger] self.entries@[j].0@ != key@,
            decreases self.entries@.len() - i,
        {
            if str_eq(self.entries[i].0.as_str(), key) {
                proof {
                    lemma_lookup(self.entries@, i as int);
                }
                return Some(&self.entries[i].1);
            }
            i += 1;
        }
        None
    }
}

// ---------------------------------------------------------------------------
// Rendering
// ---------------------------------------------------------------------------

/// Why a template source could not be rendered; minijinja's message.
#[derive(Debug, Clone)]
pub struct RenderError {
    pub message: String,
}

/// What minijinja yields for this template source rendered with these
/// variables: the text, or nothing when it fails to parse or to render.
pub uninterp spec fn rendered(source: Seq<char>, context: Map<Seq<char>, ContextValueView>) -> Option<
    Seq<char>,
>;

/// Renders a template source with the variables of `context`: a fresh
/// `minijinja::Environment` with its default configuration, the source
/// added under the name `template`, and that template rendered with the
/// variables as a JSON object.  The result is named `rendered` of the
/// source and the variables; the error's message (minijinja's, which
/// carries extra detail in debug builds) is not stated.
#[verifier::external_body]
pub fn render_template(template: &str, context: &RenderContext) -> (r: Result<String, RenderError>)
    ensures
        r matches Ok(s) ==> rendered(template@, context@) == Some(s@),
        r is Err ==> rendered(template@, context@) is None,
{
    let mut vars = serde_json::Map::new();
    for (k, v) in context.entries.iter() {
        let value = match v { ContextValue::Str(s) => serde_json::Value::from(s.as_str()), ContextValue::Bool(b) => serde_json::Value::from(*b) };
        vars.insert(k.clone(), value);
    }
    let mut env = minijinja::Environment::new();
    let result = match env.add_template("template", template) {
        Ok(()) => match env.get_template("template") { Ok(t) => t.render(serde_json::Value::Object(vars)), Err(e) => Err(e) },
        Err(e) => Err(e),
    };
    result.map_err(|e| RenderError { message: e.to_string() })
}

/// A variable reads back as the value it was last bound to, and binding
/// it leaves every other variable as it was.
pub proof fn law_variable_reads_back(
    before: RenderContext,
    after: RenderContext,
    key: Seq<char>,
    value: ContextValueView,
    other: Seq<char>,
)
    requires
        after@ == before@.insert(key, value),
    ensures
        after@.dom().contains(key),
        after@[key] == value,
        other != key ==> after@.dom().contains(other) == before@.dom().contains(other),
        other != key && before@.dom().contains(other) ==> after@[other] == before@[other],
{
}

} // verus!
