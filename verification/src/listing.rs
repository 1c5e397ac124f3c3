//! How the template list is shown: which templates a category filter keeps,
//! how they are grouped by category, and in which order groups and members
//! come; plus the text pieces a listing shows for a template.

use crate::template::Template;
use crate::text::{
    join_strings, lemma_lex_asymmetric, lemma_lex_irreflexive, lemma_lex_total,
    lemma_lex_transitive, lex_lt, seq_join, str_eq, str_lt, string_from_chars, string_views,
    to_uppercase, uppercase,
};
use vstd::prelude::*;

verus! {

/// A category of the listing: its name and the positions, in the listed
/// templates, of its members, in the order they are shown.
#[derive(Debug, Clone)]
pub struct CategoryGroup {
    pub category: String,
    pub members: Vec<usize>,
}

/// Template `i` is kept by the category filter.
pub open spec fn selected(ts: Seq<Template>, category: Option<Seq<char>>, i: int) -> bool {
    &&& 0 <= i < ts.len()
    &&& match category {
        Some(c) => ts[i].category@ == c,
        None => true,
    }
}

/// Template `i` is shown before template `j`: its name sorts first, or the
/// names are equal and it came first.
pub open spec fn shown_before(ts: Seq<Template>, i: int, j: int) -> bool {
    ||| lex_lt(ts[i].name@, ts[j].name@)
    ||| (ts[i].name@ == ts[j].name@ && i < j)
}

/// The categories come in strictly increasing order.
pub open spec fn categories_sorted(groups: Seq<CategoryGroup>) -> bool {
    forall|g: int, h: int|
        0 <= g < h < groups.len() ==> lex_lt(
            #[trigger] groups[g].category@,
            #[trigger] groups[h].category@,
        )
}

/// The members come in the order they are shown.
pub open spec fn members_sorted(ts: Seq<Template>, ms: Seq<usize>) -> bool {
    forall|a: int, b: int|
        0 <= a < b < ms.len() ==> shown_before(ts, #[trigger] ms[a] as int, #[trigger] ms[b] as int)
}

/// A group is not empty, its members are shown in order, and each member
/// is a kept template, below `bound`, of the group's category.
pub open spec fn group_ok(
    ts: Seq<Template>,
    category: Option<Seq<char>>,
    g: CategoryGroup,
    bound: int,
) -> bool {
    &&& g.members@.len() > 0
    &&& members_sorted(ts, g.members@)
    &&& forall|m: int|
        0 <= m < g.members@.len() ==> {
            &&& selected(ts, category, #[trigger] g.members@[m] as int)
            &&& g.members@[m] < bound
            &&& ts[g.members@[m] as int].category@ == g.category@
        }
}

/// Every kept template below `bound` is a member of some group.
pub open spec fn covers(
    ts: Seq<Template>,
    category: Option<Seq<char>>,
    groups: Seq<CategoryGroup>,
    bound: int,
) -> bool {
    forall|i: int|
        0 <= i < bound && #[trigger] selected(ts, category, i) ==> exists|g: int|
            0 <= g < groups.len() && #[trigger] groups[g].members@.contains(i as usize)
}

/// The groups of a listing of `ts` filtered by `category`: sorted,
/// well-formed, and covering every kept template below `bound`.
pub open spec fn plan_ok(
    ts: Seq<Template>,
    category: Option<Seq<char>>,
    groups: Seq<CategoryGroup>,
    bound: int,
) -> bool {
    &&& categories_sorted(groups)
    &&& forall|g: int| 0 <= g < groups.len() ==> group_ok(ts, category, #[trigger] groups[g], bound)
    &&& covers(ts, category, groups, bound)
}

/// The view of an optional category filter.
pub open spec fn filter_view(category: Option<&str>) -> Option<Seq<char>> {
    match category {
        Some(c) => Some(c@),
        None => None,
    }
}

/// Inserts template `i` among `members`, after every member whose name
/// sorts before it or equals it.
fn insert_member(ts: &Vec<Template>, members: Vec<usize>, i: usize) -> (r: Vec<usize>)
    requires
        i < ts@.len(),
        members_sorted(ts@, members@),
        forall|m: int| 0 <= m < members@.len() ==> #[trigger] members@[m] < i,
    ensures
        members_sorted(ts@, r@),
        r@.len() == members@.len() + 1,
        r@.contains(i),
        forall|x: usize| #[trigger] members@.contains(x) ==> r@.contains(x),
        forall|m: int| 0 <= m < r@.len() ==> (#[trigger] r@[m] == i || members@.contains(r@[m])),
{
    let mut p: usize = 0;
    while p < members.len() && !str_lt(ts[i].name.as_str(), ts[members[p]].name.as_str())
        invariant
            p <= members@.len(),
            i < ts@.len(),
            forall|m: int| 0 <= m < members@.len() ==> #[trigger] members@[m] < ts@.len(),
            forall|m: int| 0 <= m < p ==> !lex_lt(ts@[i as int].name@, #[trigger] ts@[members@[m] as int].name@),
        decreases members@.len() - p,
    {
        p += 1;
    }
    let ghost old_ms = members@;
    let mut r: Vec<usize> = members;
    r.insert(p, i);
    assert forall|a: int, b: int| 0 <= a < b < r@.len() implies shown_before(
        ts@,
        #[trigger] r@[a] as int,
        #[trigger] r@[b] as int,
    ) by {
        let ni = ts@[i as int].name@;
        if a < p && b < p {
            assert(r@[a] == old_ms[a] && r@[b] == old_ms[b]);
        } else if a < p && b == p {
            let na = ts@[old_ms[a] as int].name@;
            lemma_lex_total(na, ni);
        } else if a < p {
            assert(r@[a] == old_ms[a] && r@[b] == old_ms[b - 1]);
        } else if a == p {
            let nb = ts@[old_ms[b - 1] as int].name@;
            let np = ts@[old_ms[p as int] as int].name@;
            assert(lex_lt(ni, np));
            if b - 1 > p {
                assert(shown_before(ts@, old_ms[p as int] as int, old_ms[b - 1] as int));
                if lex_lt(np, nb) {
                    lemma_lex_transitive(ni, np, nb);
                }
            }
        } else {
            assert(r@[a] == old_ms[a - 1] && r@[b] == old_ms[b - 1]);
        }
    }
    assert(r@[p as int] == i);
    assert forall|x: usize| #[trigger] old_ms.contains(x) implies r@.contains(x) by {
        let k = choose|k: int| 0 <= k < old_ms.len() && old_ms[k] == x;
        if k < p {
            assert(r@[k] == x);
        } else {
            assert(r@[k + 1] == x);
        }
    }
    assert forall|m: int| 0 <= m < r@.len() implies (#[trigger] r@[m] == i || old_ms.contains(
        r@[m],
    )) by {
        if m < p {
            assert(r@[m] == old_ms[m]);
        } else if m > p {
            assert(r@[m] == old_ms[m - 1]);
        }
    }
    r
}

/// Adds the kept template `i` to the groups: to the group of its category,
/// or to a new group at its place in the order of categories.
fn add_to_groups(
    ts: &Vec<Template>,
    category: Option<&str>,
    groups: Vec<CategoryGroup>,
    i: usize,
) -> (r: Vec<CategoryGroup>)
    requires
        selected(ts@, filter_view(category), i as int),
        plan_ok(ts@, filter_view(category), groups@, i as int),
    ensures
        plan_ok(ts@, filter_view(category), r@, i + 1),
{
    let ghost cat = filter_view(category);
    let ghost ci = ts@[i as int].category@;
    let mut g: usize = 0;
    while g < groups.len() && str_lt(groups[g].category.as_str(), ts[i].category.as_str())
        invariant
            g <= groups@.len(),
            i < ts@.len(),
            ci == ts@[i as int].category@,
            forall|h: int| 0 <= h < g ==> lex_lt(#[trigger] groups@[h].category@, ci),
        decreases groups@.len() - g,
    {
        g += 1;
    }
    let ghost old_gs = groups@;
    let mut gs: Vec<CategoryGroup> = groups;
    if g < gs.len() && str_eq(gs[g].category.as_str(), ts[i].category.as_str()) {
        let grp = gs.remove(g);
        let ghost old_g = grp;
        assert(old_g == old_gs[g as int]);
        assert(group_ok(ts@, cat, old_g, i as int));
        let members = insert_member(ts, grp.members, i);
        let new_g = CategoryGroup { category: grp.category, members };
        gs.insert(g, new_g);
        assert(gs@ == old_gs.update(g as int, new_g));
        assert forall|m: int| 0 <= m < new_g.members@.len() implies {
            &&& selected(ts@, cat, #[trigger] new_g.members@[m] as int)
            &&& new_g.members@[m] < i + 1
            &&& ts@[new_g.members@[m] as int].category@ == new_g.category@
        } by {
            if new_g.members@[m] != i {
                let k = choose|k: int|
                    0 <= k < old_g.members@.len() && old_g.members@[k] == new_g.members@[m];
                assert(old_g.members@[k] < i);
            }
        }
        assert(group_ok(ts@, cat, new_g, i + 1));
        assert forall|h: int| 0 <= h < gs@.len() implies group_ok(
            ts@,
            cat,
            #[trigger] gs@[h],
            i + 1,
        ) by {
            if h != g {
                assert(gs@[h] == old_gs[h]);
                assert(group_ok(ts@, cat, old_gs[h], i as int));
            }
        }
        assert forall|j: int| 0 <= j < i + 1 && #[trigger] selected(ts@, cat, j) implies exists|
            h: int,
        | 0 <= h < gs@.len() && #[trigger] gs@[h].members@.contains(j as usize) by {
            if j == i {
                assert(gs@[g as int].members@.contains(j as usize));
            } else {
                let h = choose|h: int|
                    0 <= h < old_gs.len() && #[trigger] old_gs[h].members@.contains(j as usize);
                if h == g {
                    assert(gs@[h].members@.contains(j as usize));
                } else {
                    assert(gs@[h] == old_gs[h]);
                }
            }
        }
    } else {
        proof {
            if g < old_gs.len() {
                lemma_lex_total(ci, old_gs[g as int].category@);
            }
        }
        let mut members: Vec<usize> = Vec::new();
        members.push(i);
        let new_g = CategoryGroup { category: ts[i].category.clone(), members };
        assert(new_g.category@ == ci);
        gs.insert(g, new_g);
        assert forall|a: int, b: int| 0 <= a < b < gs@.len() implies lex_lt(
            #[trigger] gs@[a].category@,
            #[trigger] gs@[b].category@,
        ) by {
            if a < g && b < g {
                assert(gs@[a] == old_gs[a] && gs@[b] == old_gs[b]);
            } else if a < g && b == g {
            } else if a < g {
                assert(gs@[a] == old_gs[a] && gs@[b] == old_gs[b - 1]);
            } else if a == g {
                assert(gs@[b] == old_gs[b - 1]);
                if b - 1 > g {
                    lemma_lex_transitive(ci, old_gs[g as int].category@, old_gs[b - 1].category@);
                }
            } else {
                assert(gs@[a] == old_gs[a - 1] && gs@[b] == old_gs[b - 1]);
            }
        }
        assert(members_sorted(ts@, new_g.members@));
        assert forall|h: int| 0 <= h < gs@.len() implies group_ok(
            ts@,
            cat,
            #[trigger] gs@[h],
            i + 1,
        ) by {
            if h < g {
                assert(gs@[h] == old_gs[h]);
                assert(group_ok(ts@, cat, old_gs[h], i as int));
            } else if h > g {
                assert(gs@[h] == old_gs[h - 1]);
                assert(group_ok(ts@, cat, old_gs[h - 1], i as int));
            } else {
                assert(gs@[h] == new_g);
            }
        }
        assert forall|j: int| 0 <= j < i + 1 && #[trigger] selected(ts@, cat, j) implies exists|
            h: int,
        | 0 <= h < gs@.len() && #[trigger] gs@[h].members@.contains(j as usize) by {
            if j == i {
                assert(gs@[g as int].members@[0] == i);
                assert(gs@[g as int].members@.contains(j as usize));
            } else {
                let h = choose|h: int|
                    0 <= h < old_gs.len() && #[trigger] old_gs[h].members@.contains(j as usize);
                if h < g {
                    assert(gs@[h] == old_gs[h]);
                } else {
                    assert(gs@[h + 1] == old_gs[h]);
                }
            }
        }
    }
    gs
}

/// Groups the templates kept by the category filter (all of them when
/// there is none) by category: the categories in increasing order, each with
/// its templates by name, templates of equal names in the order given.
/// Every kept template is in exactly the group of its category.
pub fn group_by_category(ts: &Vec<Template>, category: Option<&str>) -> (r: Vec<CategoryGroup>)
    ensures
        plan_ok(ts@, filter_view(category), r@, ts@.len() as int),
{
    let mut groups: Vec<CategoryGroup> = Vec::new();
    let mut i: usize = 0;
    while i < ts.len()
        invariant
            i <= ts@.len(),
            plan_ok(ts@, filter_view(category), groups@, i as int),
        decreases ts@.len() - i,
    {
        let keep: bool = match category {
            Some(c) => str_eq(ts[i].category.as_str(), c),
            None => true,
        };
        if keep {
            groups = add_to_groups(ts, category, groups, i);
        } else {
            let ghost gs = groups@;
            assert forall|h: int| 0 <= h < gs.len() implies group_ok(
                ts@,
                filter_view(category),
                #[trigger] gs[h],
                i + 1,
            ) by {
                assert(group_ok(ts@, filter_view(category), gs[h], i as int));
            }
        }
        i += 1;
    }
    groups
}

/// `#tag` for each tag, separated by single spaces.
pub open spec fn hashtag_line(tags: Seq<Seq<char>>) -> Seq<char> {
    seq_join(tags.map_values(|t: Seq<char>| seq!['#'] + t), seq![' '])
}

/// The tags of a template as a listing shows them: each preceded by `#`,
/// separated by spaces.
pub fn hashtags(tags: &Vec<String>) -> (r: String)
    ensures
        r@ == hashtag_line(string_views(tags@)),
{
    let mut marked: Vec<String> = Vec::new();
    let mut i: usize = 0;
    while i < tags.len()
        invariant
            i <= tags@.len(),
            string_views(marked@) == string_views(tags@).take(i as int).map_values(
                |t: Seq<char>| seq!['#'] + t,
            ),
        decreases tags@.len() - i,
    {
        let mut s: String = String::from_str("#");
        proof {
            reveal_strlit("#");
        }
        s.append(tags[i].as_str());
        let ghost before = string_views(marked@);
        assert(s@ =~= seq!['#'] + tags@[i as int]@);
        marked.push(s);
        assert(string_views(marked@) =~= before.push(s@));
        assert(string_views(tags@).take(i + 1) =~= string_views(tags@).take(i as int).push(
            tags@[i as int]@,
        ));
        assert(string_views(marked@) =~= string_views(tags@).take(i + 1).map_values(
            |t: Seq<char>| seq!['#'] + t,
        ));
        i += 1;
    }
    assert(string_views(tags@).take(tags@.len() as int) =~= string_views(tags@));
    let sep: Vec<char> = vec![' '];
    let sp = string_from_chars(&sep);
    assert(sp@ =~= seq![' ']);
    join_strings(&marked, sp.as_str())
}

/// Each kept template is in exactly one group of a listing: the group of
/// its category.
pub proof fn law_each_template_in_one_group(
    ts: Seq<Template>,
    category: Option<Seq<char>>,
    groups: Seq<CategoryGroup>,
    i: usize,
)
    requires
        plan_ok(ts, category, groups, ts.len() as int),
        selected(ts, category, i as int),
    ensures
        exists|g: int| 0 <= g < groups.len() && #[trigger] groups[g].members@.contains(i),
        forall|g: int, h: int|
            0 <= g < groups.len() && 0 <= h < groups.len() && #[trigger] groups[g].members@.contains(
                i,
            ) && #[trigger] groups[h].members@.contains(i) ==> g == h,
{
    assert forall|g: int, h: int|
        0 <= g < groups.len() && 0 <= h < groups.len() && #[trigger] groups[g].members@.contains(
            i,
        ) && #[trigger] groups[h].members@.contains(i) implies g == h by {
        assert(group_ok(ts, category, groups[g], ts.len() as int));
        assert(group_ok(ts, category, groups[h], ts.len() as int));
        let a = choose|a: int| 0 <= a < groups[g].members@.len() && groups[g].members@[a] == i;
        let b = choose|b: int| 0 <= b < groups[h].members@.len() && groups[h].members@[b] == i;
        assert((i) as int == i);
        assert(selected(ts, category, groups[g].members@[a] as int));
        assert(selected(ts, category, groups[h].members@[b] as int));
        assert(groups[g].category@ == ts[i as int].category@);
        assert(groups[h].category@ == ts[i as int].category@);
        if g < h {
            lemma_lex_irreflexive(groups[g].category@);
        } else if h < g {
            lemma_lex_irreflexive(groups[g].category@);
        }
    }
}

/// Within a group no template is shown twice, and of two members the one
/// shown first has a name that sorts first or equal.
pub proof fn law_group_members_ordered_by_name(
    ts: Seq<Template>,
    category: Option<Seq<char>>,
    g: CategoryGroup,
    a: int,
    b: int,
)
    requires
        group_ok(ts, category, g, ts.len() as int),
        0 <= a < b < g.members@.len(),
    ensures
        g.members@[a] != g.members@[b],
        !lex_lt(ts[g.members@[b] as int].name@, ts[g.members@[a] as int].name@),
{
    let x = g.members@[a] as int;
    let y = g.members@[b] as int;
    assert(shown_before(ts, x, y));
    if lex_lt(ts[x].name@, ts[y].name@) {
        lemma_lex_asymmetric(ts[x].name@, ts[y].name@);
        lemma_lex_irreflexive(ts[x].name@);
    } else {
        lemma_lex_irreflexive(ts[x].name@);
    }
}

/// The heading of a category in a listing: its name in upper case,
/// followed by `:`.
pub fn category_heading(category: &str) -> (r: String)
    ensures
        r@ == uppercase(category@) + ":"@,
{
    let mut s = to_uppercase(category);
    s.append(":");
    s
}

} // verus!
