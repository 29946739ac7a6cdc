//! Resolved dependencies output: the dependencies grouped by package type,
//! the groups in ascending order of type, each group sorted by namespace and
//! name.
use crate::models::dependencies::{GradleDependencies, GradleDependency};
use crate::text::{
    copy, lemma_lex_antisym, lemma_lex_lt_trans, lemma_lex_total, lex_le, lex_lt, lex_lt_exec,
    same_text, text,
};
use crate::output::copy_opt;
use vstd::prelude::*;

verus! {

broadcast use vstd::seq_lib::group_to_multiset_ensures;

/// One resolved dependency.
#[derive(Debug)]
pub struct DependencyOutput {
    /// Package namespace (e.g., Maven group ID).
    pub namespace: Option<String>,
    /// Package name (e.g., Maven artifact ID).
    pub name: Option<String>,
    /// Package version.
    pub version: Option<String>,
    /// URL of the repository it was resolved from.
    pub repository_url: Option<String>,
    /// Resolution source (e.g., "localCache", "remote").
    pub resolution_source: Option<String>,
    /// Package URL (purl).
    pub purl: Option<String>,
}

/// The dependencies of one package type.
#[derive(Debug)]
pub struct DependencyGroupOutput {
    /// Package type (e.g., "maven"), or "unknown" when the API gives none.
    pub dependency_type: String,
    /// The dependencies of this type, sorted by namespace and name.
    pub dependencies: Vec<DependencyOutput>,
}

/// Resolved dependencies output.
#[derive(Debug)]
pub struct DependenciesOutput {
    /// Total number of resolved dependencies.
    pub total: usize,
    /// The dependencies grouped by package type, in ascending order of type.
    pub groups: Vec<DependencyGroupOutput>,
}

/// A dependency as its namespace, name, version, repository URL, resolution
/// source and purl, in the order in which dependencies are sorted.
pub type DependencyView = (
    Option<Seq<char>>,
    Option<Seq<char>>,
    Option<Seq<char>>,
    Option<Seq<char>>,
    Option<Seq<char>>,
    Option<Seq<char>>,
);

/// The characters of an optional string.
pub open spec fn opt_text(o: Option<String>) -> Option<Seq<char>> {
    match o {
        Some(s) => Some(s@),
        None => None,
    }
}

impl View for DependencyOutput {
    type V = DependencyView;

    open spec fn view(&self) -> DependencyView {
        (
            opt_text(self.namespace),
            opt_text(self.name),
            opt_text(self.version),
            opt_text(self.repository_url),
            opt_text(self.resolution_source),
            opt_text(self.purl),
        )
    }
}

/// Strict order of optional texts: an absent text first, present texts in
/// lexicographic order.
pub open spec fn opt_lt(a: Option<Seq<char>>, b: Option<Seq<char>>) -> bool {
    match a {
        None => b is Some,
        Some(x) => match b {
            Some(y) => lex_lt(x, y),
            None => false,
        },
    }
}

/// `a` comes before `b` on a field, or they are equal on it and `rest` holds.
pub open spec fn field_then(a: Option<Seq<char>>, b: Option<Seq<char>>, rest: bool) -> bool {
    opt_lt(a, b) || (a == b && rest)
}

/// Whether dependency `a` may come before dependency `b`: by namespace, then
/// by name; among equal namespaces and names by version, repository URL,
/// resolution source and purl.
pub open spec fn dependency_le(a: DependencyView, b: DependencyView) -> bool {
    field_then(
        a.0,
        b.0,
        field_then(
            a.1,
            b.1,
            field_then(a.2, b.2, field_then(a.3, b.3, field_then(a.4, b.4, field_then(a.5, b.5, true)))),
        ),
    )
}

/// A dependency together with its package type.
pub type TypedView = (Seq<char>, DependencyView);

/// Whether typed dependency `a` may come before `b`: by type, then as
/// `dependency_le` orders them.
pub open spec fn typed_le(a: TypedView, b: TypedView) -> bool {
    lex_lt(a.0, b.0) || (a.0 == b.0 && dependency_le(a.1, b.1))
}

proof fn lemma_lex_trichotomy(a: Seq<char>, b: Seq<char>)
    ensures
        lex_lt(a, b) || a == b || lex_lt(b, a),
        !(lex_lt(a, b) && lex_lt(b, a)),
{
    lemma_lex_total(a, b);
    if lex_le(a, b) && lex_le(b, a) {
        lemma_lex_antisym(a, b);
    }
}

proof fn lemma_opt_trichotomy(a: Option<Seq<char>>, b: Option<Seq<char>>)
    ensures
        opt_lt(a, b) || a == b || opt_lt(b, a),
        !(opt_lt(a, b) && opt_lt(b, a)),
{
    if a is Some && b is Some {
        lemma_lex_trichotomy(a->0, b->0);
    }
}

proof fn lemma_opt_trans(a: Option<Seq<char>>, b: Option<Seq<char>>, c: Option<Seq<char>>)
    ensures
        opt_lt(a, b) && opt_lt(b, c) ==> opt_lt(a, c),
{
    if opt_lt(a, b) && opt_lt(b, c) && a is Some {
        lemma_lex_lt_trans(a->0, b->0, c->0);
    }
}

proof fn lemma_then_total(a: Option<Seq<char>>, b: Option<Seq<char>>, r1: bool, r2: bool)
    ensures
        (r1 || r2) ==> (field_then(a, b, r1) || field_then(b, a, r2)),
{
    lemma_opt_trichotomy(a, b);
}

proof fn lemma_then_trans(
    a: Option<Seq<char>>,
    b: Option<Seq<char>>,
    c: Option<Seq<char>>,
    r_ab: bool,
    r_bc: bool,
    r_ac: bool,
)
    ensures
        (field_then(a, b, r_ab) && field_then(b, c, r_bc) && (r_ab && r_bc ==> r_ac)) ==> field_then(
            a,
            c,
            r_ac,
        ),
{
    lemma_opt_trans(a, b, c);
}

/// Any two dependencies are ordered one way or the other.
proof fn lemma_dependency_total(a: DependencyView, b: DependencyView)
    ensures
        dependency_le(a, b) || dependency_le(b, a),
{
    lemma_then_total(a.5, b.5, true, true);
    let (t5, s5) = (field_then(a.5, b.5, true), field_then(b.5, a.5, true));
    lemma_then_total(a.4, b.4, t5, s5);
    let (t4, s4) = (field_then(a.4, b.4, t5), field_then(b.4, a.4, s5));
    lemma_then_total(a.3, b.3, t4, s4);
    let (t3, s3) = (field_then(a.3, b.3, t4), field_then(b.3, a.3, s4));
    lemma_then_total(a.2, b.2, t3, s3);
    let (t2, s2) = (field_then(a.2, b.2, t3), field_then(b.2, a.2, s3));
    lemma_then_total(a.1, b.1, t2, s2);
    let (t1, s1) = (field_then(a.1, b.1, t2), field_then(b.1, a.1, s2));
    lemma_then_total(a.0, b.0, t1, s1);
}

/// The order of dependencies is transitive.
proof fn lemma_dependency_trans(a: DependencyView, b: DependencyView, c: DependencyView)
    requires
        dependency_le(a, b),
        dependency_le(b, c),
    ensures
        dependency_le(a, c),
{
    lemma_then_trans(a.5, b.5, c.5, true, true, true);
    let (ab5, bc5, ac5) = (field_then(a.5, b.5, true), field_then(b.5, c.5, true), field_then(a.5, c.5, true));
    lemma_then_trans(a.4, b.4, c.4, ab5, bc5, ac5);
    let (ab4, bc4, ac4) = (field_then(a.4, b.4, ab5), field_then(b.4, c.4, bc5), field_then(a.4, c.4, ac5));
    lemma_then_trans(a.3, b.3, c.3, ab4, bc4, ac4);
    let (ab3, bc3, ac3) = (field_then(a.3, b.3, ab4), field_then(b.3, c.3, bc4), field_then(a.3, c.3, ac4));
    lemma_then_trans(a.2, b.2, c.2, ab3, bc3, ac3);
    let (ab2, bc2, ac2) = (field_then(a.2, b.2, ab3), field_then(b.2, c.2, bc3), field_then(a.2, c.2, ac3));
    lemma_then_trans(a.1, b.1, c.1, ab2, bc2, ac2);
    let (ab1, bc1, ac1) = (field_then(a.1, b.1, ab2), field_then(b.1, c.1, bc2), field_then(a.1, c.1, ac2));
    lemma_then_trans(a.0, b.0, c.0, ab1, bc1, ac1);
}

proof fn lemma_typed_total(a: TypedView, b: TypedView)
    ensures
        typed_le(a, b) || typed_le(b, a),
{
    lemma_lex_trichotomy(a.0, b.0);
    lemma_dependency_total(a.1, b.1);
}

proof fn lemma_typed_trans(a: TypedView, b: TypedView, c: TypedView)
    requires
        typed_le(a, b),
        typed_le(b, c),
    ensures
        typed_le(a, c),
{
    if lex_lt(a.0, b.0) && lex_lt(b.0, c.0) {
        lemma_lex_lt_trans(a.0, b.0, c.0);
    }
    if a.0 == b.0 && b.0 == c.0 {
        lemma_dependency_trans(a.1, b.1, c.1);
    }
}

// ---------------------------------------------------------------------------
// The response and the groups.
// ---------------------------------------------------------------------------

/// The package type of a dependency, "unknown" when the API gives none.
pub open spec fn type_label(d: GradleDependency) -> Seq<char> {
    match d.dependency_type {
        Some(t) => t@,
        None => "unknown"@,
    }
}

/// The URL of the repository a dependency was resolved from.
pub open spec fn repository_url_of(d: GradleDependency) -> Option<Seq<char>> {
    match d.repository {
        Some(r) => opt_text(r.url),
        None => None,
    }
}

/// The resolution source of a dependency.
pub open spec fn resolution_source_of(d: GradleDependency) -> Option<Seq<char>> {
    match d.repository {
        Some(r) => opt_text(r.resolution_source),
        None => None,
    }
}

/// A dependency of the API's response with its package type.
pub open spec fn response_entry(d: GradleDependency) -> TypedView {
    (
        type_label(d),
        (
            opt_text(d.namespace),
            opt_text(d.name),
            opt_text(d.version),
            repository_url_of(d),
            resolution_source_of(d),
            opt_text(d.purl),
        ),
    )
}

/// The dependencies of the API's response with their package types.
pub open spec fn response_entries(ds: Seq<GradleDependency>) -> Seq<TypedView> {
    ds.map_values(|d: GradleDependency| response_entry(d))
}

/// The dependencies of a group with its package type.
pub open spec fn group_entries(g: DependencyGroupOutput) -> Seq<TypedView> {
    g.dependencies@.map_values(|d: DependencyOutput| (g.dependency_type@, d@))
}

/// The dependencies of all groups with their package types, group by group.
pub open spec fn grouped_entries(gs: Seq<DependencyGroupOutput>) -> Seq<TypedView>
    decreases gs.len(),
{
    if gs.len() == 0 {
        Seq::empty()
    } else {
        grouped_entries(gs.drop_last()) + group_entries(gs.last())
    }
}

/// Every dependency may come before every later one.
pub open spec fn dependencies_sorted(s: Seq<DependencyOutput>) -> bool {
    forall|a: int, b: int| 0 <= a < b < s.len() ==> dependency_le((#[trigger] s[a])@, (#[trigger] s[b])@)
}

/// Each group has dependencies, the groups are in strictly ascending order of
/// type (so no type has two groups), and each group is sorted.
pub open spec fn groups_sorted(gs: Seq<DependencyGroupOutput>) -> bool {
    &&& forall|i: int| 0 <= i < gs.len() ==> (#[trigger] gs[i]).dependencies@.len() > 0
    &&& forall|i: int, j: int|
        0 <= i < j < gs.len() ==> lex_lt((#[trigger] gs[i]).dependency_type@, (#[trigger] gs[j]).dependency_type@)
    &&& forall|i: int| 0 <= i < gs.len() ==> dependencies_sorted((#[trigger] gs[i]).dependencies@)
}

/// The dependencies record of the API's response: its total, and its
/// dependencies grouped by package type, the groups in ascending order of
/// type and each sorted by namespace and name, every dependency of the
/// response in the group of its type as often as the response lists it.
pub open spec fn dependencies_match(r: DependenciesOutput, d: GradleDependencies) -> bool {
    &&& r.total == d.dependencies@.len()
    &&& groups_sorted(r.groups@)
    &&& grouped_entries(r.groups@).to_multiset() == response_entries(d.dependencies@).to_multiset()
}

// ---------------------------------------------------------------------------
// Sorting.
// ---------------------------------------------------------------------------

/// A typed dependency as its package type and view.
pub open spec fn typed_of(t: (String, DependencyOutput)) -> TypedView {
    (t.0@, t.1@)
}

/// The views of typed dependencies.
pub open spec fn typed_views(s: Seq<(String, DependencyOutput)>) -> Seq<TypedView> {
    s.map_values(|t: (String, DependencyOutput)| typed_of(t))
}

/// Every typed dependency may come before every later one.
pub open spec fn typed_sorted(s: Seq<TypedView>) -> bool {
    forall|i: int, j: int| 0 <= i < j < s.len() ==> typed_le(#[trigger] s[i], #[trigger] s[j])
}

fn opt_eq_exec(a: &Option<String>, b: &Option<String>) -> (r: bool)
    ensures
        r == (opt_text(*a) == opt_text(*b)),
{
    match a {
        None => b.is_none(),
        Some(x) => match b {
            Some(y) => same_text(x, y.as_str()),
            None => false,
        },
    }
}

fn opt_lt_exec(a: &Option<String>, b: &Option<String>) -> (r: bool)
    ensures
        r == opt_lt(opt_text(*a), opt_text(*b)),
{
    match a {
        None => b.is_some(),
        Some(x) => match b {
            Some(y) => lex_lt_exec(x, y),
            None => false,
        },
    }
}

fn dependency_le_exec(a: &DependencyOutput, b: &DependencyOutput) -> (r: bool)
    ensures
        r == dependency_le(a@, b@),
{
    if !opt_eq_exec(&a.namespace, &b.namespace) {
        return opt_lt_exec(&a.namespace, &b.namespace);
    }
    if !opt_eq_exec(&a.name, &b.name) {
        return opt_lt_exec(&a.name, &b.name);
    }
    if !opt_eq_exec(&a.version, &b.version) {
        return opt_lt_exec(&a.version, &b.version);
    }
    if !opt_eq_exec(&a.repository_url, &b.repository_url) {
        return opt_lt_exec(&a.repository_url, &b.repository_url);
    }
    if !opt_eq_exec(&a.resolution_source, &b.resolution_source) {
        return opt_lt_exec(&a.resolution_source, &b.resolution_source);
    }
    if !opt_eq_exec(&a.purl, &b.purl) {
        return opt_lt_exec(&a.purl, &b.purl);
    }
    true
}

fn typed_le_exec(a: &(String, DependencyOutput), b: &(String, DependencyOutput)) -> (r: bool)
    ensures
        r == typed_le(typed_of(*a), typed_of(*b)),
{
    lex_lt_exec(&a.0, &b.0) || (same_text(&a.0, b.0.as_str()) && dependency_le_exec(&a.1, &b.1))
}

/// A dependency of the response as its package type and output record.
fn typed_dependency(d: &GradleDependency) -> (r: (String, DependencyOutput))
    ensures
        typed_of(r) == response_entry(*d),
{
    let label = match &d.dependency_type {
        Some(t) => copy(t),
        None => text("unknown"),
    };
    let (repository_url, resolution_source) = match &d.repository {
        Some(repo) => (copy_opt(&repo.url), copy_opt(&repo.resolution_source)),
        None => (None, None),
    };
    (
        label,
        DependencyOutput {
            namespace: copy_opt(&d.namespace),
            name: copy_opt(&d.name),
            version: copy_opt(&d.version),
            repository_url,
            resolution_source,
            purl: copy_opt(&d.purl),
        },
    )
}

/// The dependencies of the response with their types, sorted by type and
/// then as `dependency_le` orders them.
fn sorted_dependencies(deps: &Vec<GradleDependency>) -> (r: Vec<(String, DependencyOutput)>)
    ensures
        typed_sorted(typed_views(r@)),
        typed_views(r@).to_multiset() == response_entries(deps@).to_multiset(),
{
    let mut out: Vec<(String, DependencyOutput)> = Vec::new();
    let mut k: usize = 0;
    while k < deps.len()
        invariant
            k <= deps@.len(),
            typed_sorted(typed_views(out@)),
            typed_views(out@).to_multiset() == response_entries(deps@.take(k as int)).to_multiset(),
        decreases deps.len() - k,
    {
        let x = typed_dependency(&deps[k]);
        let ghost xv = typed_of(x);
        let ghost before = typed_views(out@);
        let mut p: usize = 0;
        while p < out.len() && typed_le_exec(&out[p], &x)
            invariant
                p <= out@.len(),
                typed_views(out@) == before,
                typed_of(x) == xv,
                forall|j: int| 0 <= j < p ==> typed_le(#[trigger] before[j], xv),
            decreases out.len() - p,
        {
            p = p + 1;
        }
        proof {
            if p < before.len() {
                lemma_typed_total(before[p as int], xv);
                assert forall|j: int| p <= j < before.len() implies typed_le(xv, #[trigger] before[j]) by {
                    if j > p {
                        lemma_typed_trans(xv, before[p as int], before[j]);
                    }
                }
            }
        }
        out.insert(p, x);
        proof {
            let after = typed_views(out@);
            assert(after =~= before.insert(p as int, xv));
            before.insert_ensures(p as int, xv);
            assert forall|i: int, j: int| 0 <= i < j < after.len() implies typed_le(
                #[trigger] after[i],
                #[trigger] after[j],
            ) by {
                if i < p && j < p {
                    assert(after[i] == before[i] && after[j] == before[j]);
                } else if i < p && j == p {
                    assert(after[i] == before[i]);
                } else if i < p {
                    assert(after[i] == before[i] && after[j] == before[j - 1]);
                    lemma_typed_trans(before[i], xv, before[j - 1]);
                } else if i == p {
                    assert(after[j] == before[j - 1]);
                } else {
                    assert(after[i] == before[i - 1] && after[j] == before[j - 1]);
                }
            }
            assert(deps@.take(k + 1) == deps@.take(k as int).push(deps@[k as int]));
            assert(response_entries(deps@.take(k + 1)) == response_entries(deps@.take(k as int)).push(
                response_entry(deps@[k as int]),
            ));
        }
        k = k + 1;
    }
    proof {
        assert(deps@.take(deps@.len() as int) == deps@);
    }
    out
}

/// The grouped entries of groups whose last group gained one dependency.
proof fn lemma_grouped_push(gs: Seq<DependencyGroupOutput>, g: DependencyGroupOutput, d: DependencyOutput)
    requires
        gs.len() > 0,
        g.dependency_type == gs.last().dependency_type,
        g.dependencies@ == gs.last().dependencies@.push(d),
    ensures
        grouped_entries(gs.drop_last().push(g)) == grouped_entries(gs).push(
            (gs.last().dependency_type@, d@),
        ),
{
    let gs2 = gs.drop_last().push(g);
    assert(gs2.drop_last() =~= gs.drop_last());
    assert(group_entries(g) =~= group_entries(gs.last()).push((gs.last().dependency_type@, d@)));
}

/// Sorted typed dependencies cut into groups of equal type.
fn group_sorted(sorted: Vec<(String, DependencyOutput)>) -> (r: Vec<DependencyGroupOutput>)
    requires
        typed_sorted(typed_views(sorted@)),
    ensures
        groups_sorted(r@),
        grouped_entries(r@) == typed_views(sorted@),
{
    let ghost all = sorted@;
    let mut rest = sorted;
    let mut groups: Vec<DependencyGroupOutput> = Vec::new();
    let mut i: usize = 0;
    proof {
        assert(rest.len() == all.len());
        assert(typed_views(all.take(0)) =~= grouped_entries(groups@));
    }
    while rest.len() > 0
        invariant
            i + rest@.len() == all.len(),
            all.len() <= usize::MAX,
            rest@ == all.skip(i as int),
            typed_sorted(typed_views(all)),
            groups_sorted(groups@),
            grouped_entries(groups@) == typed_views(all.take(i as int)),
            i == 0 <==> groups@.len() == 0,
            i > 0 ==> groups@.last().dependency_type@ == all[i - 1].0@,
            i > 0 ==> groups@.last().dependencies@.last()@ == all[i - 1].1@,
        decreases rest.len(),
    {
        let ghost tv = typed_views(all);
        let x = rest.remove(0);
        proof {
            assert(x == all[i as int]);
            assert(rest@ == all.skip(i + 1));
            assert(tv[i as int] == typed_of(x));
            assert(typed_views(all.take(i + 1)) =~= typed_views(all.take(i as int)).push(typed_of(x)));
        }
        let (label, dep) = x;
        let n = groups.len();
        if n > 0 && same_text(&groups[n - 1].dependency_type, label.as_str()) {
            let ghost gs = groups@;
            let mut g = groups.pop().unwrap();
            proof {
                assert(g == gs.last());
                assert(groups@ == gs.drop_last());
                assert(typed_le(tv[i - 1], tv[i as int]));
            }
            let ghost old_deps = g.dependencies@;
            g.dependencies.push(dep);
            proof {
                let ds = g.dependencies@;
                assert forall|a: int, b: int| 0 <= a < b < ds.len() implies dependency_le(
                    (#[trigger] ds[a])@,
                    (#[trigger] ds[b])@,
                ) by {
                    if b == ds.len() - 1 {
                        assert(ds[b]@ == dep@);
                        if a < old_deps.len() - 1 {
                            lemma_dependency_trans(ds[a]@, old_deps.last()@, dep@);
                        }
                    } else {
                        assert(ds[a] == old_deps[a] && ds[b] == old_deps[b]);
                    }
                }
                lemma_grouped_push(gs, g, dep);
            }
            groups.push(g);
            proof {
                let ng = groups@;
                assert(ng == gs.drop_last().push(g));
                assert forall|a: int| 0 <= a < ng.len() implies (#[trigger] ng[a]).dependencies@.len() > 0 by {
                    if a < ng.len() - 1 {
                        assert(ng[a] == gs[a]);
                    }
                }
                assert forall|a: int, b: int| 0 <= a < b < ng.len() implies lex_lt(
                    (#[trigger] ng[a]).dependency_type@,
                    (#[trigger] ng[b]).dependency_type@,
                ) by {
                    assert(ng[a] == gs[a]);
                    if b < ng.len() - 1 {
                        assert(ng[b] == gs[b]);
                    } else {
                        assert(ng[b].dependency_type == gs[b].dependency_type);
                    }
                }
                assert forall|a: int| 0 <= a < ng.len() implies dependencies_sorted(
                    (#[trigger] ng[a]).dependencies@,
                ) by {
                    if a < ng.len() - 1 {
                        assert(ng[a] == gs[a]);
                    }
                }
            }
        } else {
            let ghost gs = groups@;
            proof {
                if n > 0 {
                    assert(typed_le(tv[i - 1], tv[i as int]));
                    assert(lex_lt(gs.last().dependency_type@, label@));
                    assert forall|a: int| 0 <= a < gs.len() implies lex_lt(
                        (#[trigger] gs[a]).dependency_type@,
                        label@,
                    ) by {
                        if a < gs.len() - 1 {
                            lemma_lex_lt_trans(gs[a].dependency_type@, gs.last().dependency_type@, label@);
                        }
                    }
                }
            }
            let mut deps: Vec<DependencyOutput> = Vec::new();
            deps.push(dep);
            let g = DependencyGroupOutput { dependency_type: label, dependencies: deps };
            groups.push(g);
            proof {
                let ng = groups@;
                assert(ng.drop_last() =~= gs);
                assert(group_entries(g) =~= seq![typed_of(x)]);
                assert(grouped_entries(ng) =~= grouped_entries(gs) + seq![typed_of(x)]);
                assert forall|a: int| 0 <= a < ng.len() implies (#[trigger] ng[a]).dependencies@.len() > 0 by {
                    if a < ng.len() - 1 {
                        assert(ng[a] == gs[a]);
                    }
                }
                assert forall|a: int, b: int| 0 <= a < b < ng.len() implies lex_lt(
                    (#[trigger] ng[a]).dependency_type@,
                    (#[trigger] ng[b]).dependency_type@,
                ) by {
                    assert(ng[a] == gs[a]);
                    if b < ng.len() - 1 {
                        assert(ng[b] == gs[b]);
                    }
                }
                assert forall|a: int| 0 <= a < ng.len() implies dependencies_sorted(
                    (#[trigger] ng[a]).dependencies@,
                ) by {
                    if a < ng.len() - 1 {
                        assert(ng[a] == gs[a]);
                    }
                }
            }
        }
        i = i + 1;
    }
    proof {
        assert(all.take(all.len() as int) =~= all);
    }
    groups
}

impl DependenciesOutput {
    /// Dependencies output: the total, and the dependencies grouped by
    /// package type, the groups in ascending order of type and each sorted
    /// by namespace and name.
    pub fn from_dependencies(deps: &GradleDependencies) -> (r: DependenciesOutput)
        ensures
            dependencies_match(r, *deps),
    {
        let sorted = sorted_dependencies(&deps.dependencies);
        let groups = group_sorted(sorted);
        DependenciesOutput { total: deps.dependencies.len(), groups }
    }
}

} // verus!
