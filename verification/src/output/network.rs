//! Network activity output: totals and per-method / per-repository breakdowns,
//! busiest first.
use crate::models::network_activity::{
    names_distinct, GradleNetworkActivity, NamedNetworkMetrics, NetworkActivityMetrics,
};
use crate::text::{lemma_lex_total, lemma_lex_trans, lex_le, lex_le_exec};
use vstd::prelude::*;

verus! {

broadcast use vstd::seq_lib::group_to_multiset_ensures;

/// One entry of a network activity breakdown.
#[derive(Debug)]
pub struct NetworkActivityEntryOutput {
    /// The HTTP method or repository URL.
    pub name: String,
    /// Number of network requests.
    pub network_request_count: i64,
    /// Serial network request time in milliseconds.
    pub serial_network_request_time_ms: i64,
    /// Wall-clock network request time in milliseconds.
    pub wall_clock_network_request_time_ms: i64,
    /// Number of file downloads.
    pub file_download_count: i64,
    /// File download size in bytes.
    pub file_download_size_bytes: i64,
}

/// Network activity output.
#[derive(Debug)]
pub struct NetworkActivityOutput {
    /// Total number of network requests.
    pub network_request_count: i64,
    /// Total serial network request time in milliseconds.
    pub serial_network_request_time_ms: i64,
    /// Total wall-clock network request time in milliseconds.
    pub wall_clock_network_request_time_ms: i64,
    /// Total number of file downloads.
    pub file_download_count: i64,
    /// Total file download size in bytes.
    pub file_download_size_bytes: i64,
    /// Breakdown by HTTP method, busiest first.
    pub methods: Vec<NetworkActivityEntryOutput>,
    /// Breakdown by repository, busiest first.
    pub repositories: Vec<NetworkActivityEntryOutput>,
}

/// A breakdown entry as a name and its metrics.
pub type EntryView = (Seq<char>, NetworkActivityMetrics);

impl View for NetworkActivityEntryOutput {
    type V = EntryView;

    open spec fn view(&self) -> EntryView {
        (
            self.name@,
            NetworkActivityMetrics {
                network_request_count: self.network_request_count,
                serial_network_request_time: self.serial_network_request_time_ms,
                file_download_count: self.file_download_count,
                file_download_size: self.file_download_size_bytes,
                wall_clock_network_request_time: self.wall_clock_network_request_time_ms,
            },
        )
    }
}

/// The name and metrics of an API breakdown entry.
pub open spec fn named_view(n: NamedNetworkMetrics) -> EntryView {
    (n.name@, n.metrics)
}

/// The views of output entries.
pub open spec fn entry_views(s: Seq<NetworkActivityEntryOutput>) -> Seq<EntryView> {
    s.map_values(|e: NetworkActivityEntryOutput| e@)
}

/// The views of API breakdown entries.
pub open spec fn named_views(s: Seq<NamedNetworkMetrics>) -> Seq<EntryView> {
    s.map_values(|n: NamedNetworkMetrics| named_view(n))
}

/// Whether entry `a` may come before entry `b`: more requests first, and by
/// name among entries with equally many requests.
pub open spec fn ranks_before(a: EntryView, b: EntryView) -> bool {
    ||| a.1.network_request_count > b.1.network_request_count
    ||| (a.1.network_request_count == b.1.network_request_count && lex_le(a.0, b.0))
}

/// Every entry ranks before every later one.
pub open spec fn busiest_first(s: Seq<EntryView>) -> bool {
    forall|i: int, j: int| 0 <= i < j < s.len() ==> ranks_before(#[trigger] s[i], #[trigger] s[j])
}

proof fn lemma_ranks_total(a: EntryView, b: EntryView)
    ensures
        ranks_before(a, b) || ranks_before(b, a),
{
    lemma_lex_total(a.0, b.0);
}

proof fn lemma_ranks_trans(a: EntryView, b: EntryView, c: EntryView)
    requires
        ranks_before(a, b),
        ranks_before(b, c),
    ensures
        ranks_before(a, c),
{
    if a.1.network_request_count == b.1.network_request_count && b.1.network_request_count
        == c.1.network_request_count {
        lemma_lex_trans(a.0, b.0, c.0);
    }
}

fn ranks_before_exec(a: &NetworkActivityEntryOutput, b: &NetworkActivityEntryOutput) -> (r: bool)
    ensures
        r == ranks_before(a@, b@),
{
    a.network_request_count > b.network_request_count || (a.network_request_count
        == b.network_request_count && lex_le_exec(&a.name, &b.name))
}

/// No two entries have the same name.
pub open spec fn names_unique(s: Seq<EntryView>) -> bool {
    forall|i: int, j: int| 0 <= i < j < s.len() ==> (#[trigger] s[i]).0 != (#[trigger] s[j]).0
}

/// The breakdown entries, busiest first (most requests first; by name among
/// entries with equally many requests). Entries named once stay named once.
pub fn busiest_first_entries(entries: &Vec<NamedNetworkMetrics>) -> (r: Vec<NetworkActivityEntryOutput>)
    ensures
        busiest_first(entry_views(r@)),
        entry_views(r@).to_multiset() == named_views(entries@).to_multiset(),
        names_distinct(entries@) ==> names_unique(entry_views(r@)),
{
    let mut out: Vec<NetworkActivityEntryOutput> = Vec::new();
    let mut k: usize = 0;
    while k < entries.len()
        invariant
            k <= entries@.len(),
            busiest_first(entry_views(out@)),
            entry_views(out@).to_multiset() == named_views(entries@.take(k as int)).to_multiset(),
            forall|i: int|
                0 <= i < out@.len() ==> exists|j: int| 0 <= j < k && (#[trigger] out@[i]).name@ == entries@[j].name@,
            names_distinct(entries@) ==> names_unique(entry_views(out@)),
        decreases entries.len() - k,
    {
        let n = &entries[k];
        let x = NetworkActivityEntryOutput {
            name: n.name.clone(),
            network_request_count: n.metrics.network_request_count,
            serial_network_request_time_ms: n.metrics.serial_network_request_time,
            wall_clock_network_request_time_ms: n.metrics.wall_clock_network_request_time,
            file_download_count: n.metrics.file_download_count,
            file_download_size_bytes: n.metrics.file_download_size,
        };
        let ghost before = entry_views(out@);
        let mut p: usize = 0;
        while p < out.len() && ranks_before_exec(&out[p], &x)
            invariant
                p <= out@.len(),
                entry_views(out@) == before,
                forall|j: int| 0 <= j < p ==> ranks_before(#[trigger] before[j], x@),
            decreases out.len() - p,
        {
            p = p + 1;
        }
        proof {
            if p < before.len() {
                lemma_ranks_total(before[p as int], x@);
                assert forall|j: int| p <= j < before.len() implies ranks_before(x@, #[trigger] before[j]) by {
                    if j > p {
                        lemma_ranks_trans(x@, before[p as int], before[j]);
                    }
                }
            }
        }
        let ghost old_out = out@;
        out.insert(p, x);
        proof {
            assert(out@ == old_out.insert(p as int, x));
            assert forall|i: int| 0 <= i < out@.len() implies exists|j: int|
                0 <= j < k + 1 && (#[trigger] out@[i]).name@ == entries@[j].name@ by {
                if i < p {
                    assert(out@[i] == old_out[i]);
                    let j = choose|j: int| 0 <= j < k && old_out[i].name@ == entries@[j].name@;
                    assert(0 <= j < k + 1 && out@[i].name@ == entries@[j].name@);
                } else if i == p {
                    assert(out@[i] == x);
                    assert(out@[i].name@ == entries@[k as int].name@);
                } else {
                    assert(out@[i] == old_out[i - 1]);
                    let j = choose|j: int| 0 <= j < k && old_out[i - 1].name@ == entries@[j].name@;
                    assert(0 <= j < k + 1 && out@[i].name@ == entries@[j].name@);
                }
            }
            if names_distinct(entries@) {
                let nv = entry_views(out@);
                let ov = entry_views(old_out);
                assert forall|a: int, b: int| 0 <= a < b < nv.len() implies (#[trigger] nv[a]).0 != (
                #[trigger] nv[b]).0 by {
                    if a != p && b != p {
                        let a0 = if a < p { a } else { a - 1 };
                        let b0 = if b < p { b } else { b - 1 };
                        assert(nv[a] == ov[a0] && nv[b] == ov[b0]);
                        assert(a0 < b0);
                    } else {
                        let other = if a == p { b } else { a };
                        let o0 = if other < p { other } else { other - 1 };
                        assert(out@[other] == old_out[o0]);
                        let j = choose|j: int| 0 <= j < k && old_out[o0].name@ == entries@[j].name@;
                        assert(entries@[j].name@ != entries@[k as int].name@);
                        assert(nv[p as int].0 == x.name@);
                        assert(nv[other].0 == old_out[o0].name@);
                    }
                }
            }
            let after = entry_views(out@);
            assert(after =~= before.insert(p as int, x@));
            before.insert_ensures(p as int, x@);
            assert forall|i: int, j: int| 0 <= i < j < after.len() implies ranks_before(
                #[trigger] after[i],
                #[trigger] after[j],
            ) by {
                if i < p && j < p {
                    assert(after[i] == before[i] && after[j] == before[j]);
                } else if i < p && j == p {
                    assert(after[i] == before[i]);
                } else if i < p {
                    assert(after[i] == before[i] && after[j] == before[j - 1]);
                    lemma_ranks_trans(before[i], x@, before[j - 1]);
                } else if i == p {
                    assert(after[j] == before[j - 1]);
                } else {
                    assert(after[i] == before[i - 1] && after[j] == before[j - 1]);
                }
            }
            assert(entries@.take(k + 1) == entries@.take(k as int).push(*n));
            assert(named_views(entries@.take(k + 1)) == named_views(entries@.take(k as int)).push(named_view(*n)));
            assert(x@ == named_view(*n));
        }
        k = k + 1;
    }
    proof {
        assert(entries@.take(entries@.len() as int) == entries@);
    }
    out
}

/// The network activity record of the API's network activity: the totals,
/// and the per-method and per-repository breakdowns busiest first.
pub open spec fn network_matches(r: NetworkActivityOutput, activity: GradleNetworkActivity) -> bool {
    &&& r.network_request_count == activity.network_request_count
    &&& r.serial_network_request_time_ms == activity.serial_network_request_time
    &&& r.wall_clock_network_request_time_ms == activity.wall_clock_network_request_time
    &&& r.file_download_count == activity.file_download_count
    &&& r.file_download_size_bytes == activity.file_download_size
    &&& busiest_first(entry_views(r.methods@))
    &&& entry_views(r.methods@).to_multiset() == named_views(activity.methods@).to_multiset()
    &&& busiest_first(entry_views(r.repositories@))
    &&& entry_views(r.repositories@).to_multiset() == named_views(activity.repositories@).to_multiset()
}

/// The breakdowns of a well-formed network activity name each method and
/// each repository once.
pub open spec fn breakdowns_unique(r: NetworkActivityOutput) -> bool {
    names_unique(entry_views(r.methods@)) && names_unique(entry_views(r.repositories@))
}

impl NetworkActivityOutput {
    /// Network activity output: the totals, and the per-method and
    /// per-repository breakdowns busiest first.
    pub fn from_activity(activity: &GradleNetworkActivity) -> (r: NetworkActivityOutput)
        ensures
            network_matches(r, *activity),
            activity.wf() ==> breakdowns_unique(r),
    {
        NetworkActivityOutput {
            network_request_count: activity.network_request_count,
            serial_network_request_time_ms: activity.serial_network_request_time,
            wall_clock_network_request_time_ms: activity.wall_clock_network_request_time,
            file_download_count: activity.file_download_count,
            file_download_size_bytes: activity.file_download_size,
            methods: busiest_first_entries(&activity.methods),
            repositories: busiest_first_entries(&activity.repositories),
        }
    }
}

} // verus!
