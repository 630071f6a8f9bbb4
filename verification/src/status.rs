//! The cross-reference engine: the registry yank index, deduplication of
//! declared dependencies, and the construction of one status record per
//! distinct (name, version) pair, carrying its advisories, yank status and
//! every manifest that references it.
use vstd::prelude::*;

use crate::DepInfo;
use crate::Ebuild;

verus! {

/// A (name, version) pair as sequences of characters.
pub type PairView = (Seq<char>, Seq<char>);

/// An advisory summary as plain values: id, title, severity.
pub type AdvView = (Seq<char>, Seq<char>, Option<i64>);

/// A read-only projection of one advisory-database entry: its id, title,
/// and optional severity score in thousandths.
pub struct AdvisoryMeta {
    pub id: String,
    pub title: String,
    pub severity_milli: Option<i64>,
}

impl AdvisoryMeta {
    /// The triple of values an advisory summary denotes.
    pub open spec fn view_triple(&self) -> AdvView {
        (self.id@, self.title@, self.severity_milli)
    }

    /// A field-preserving copy.
    pub fn duplicate(&self) -> (r: AdvisoryMeta)
        ensures
            r.view_triple() == self.view_triple(),
    {
        AdvisoryMeta {
            id: self.id.clone(),
            title: self.title.clone(),
            severity_milli: self.severity_milli,
        }
    }
}

/// The views of a list of advisory summaries.
pub open spec fn adv_views(s: Seq<AdvisoryMeta>) -> Seq<AdvView> {
    s.map_values(|a: AdvisoryMeta| a.view_triple())
}

/// The status of one distinct declared dependency.
pub struct CrateStatus {
    /// The exact (name, version) pair.
    pub id: DepInfo,
    /// Advisories matching the pair, as loaded from the database.
    pub advisories: Vec<AdvisoryMeta>,
    /// Yank status in the registry: withdrawn, available, or unknown.
    pub yanked: Option<bool>,
    /// Every manifest referencing the pair, in extraction order.
    pub ebuilds: Vec<Ebuild>,
}

/// The quadruple of values a status record denotes.
pub open spec fn status_view(cs: CrateStatus) -> (
    PairView,
    Seq<AdvView>,
    Option<bool>,
    Seq<PairView>,
) {
    (
        cs.id.view_pair(),
        adv_views(cs.advisories@),
        cs.yanked,
        cs.ebuilds@.map_values(|e: Ebuild| e.view_pair()),
    )
}

/// The in-memory registry index: the latest recorded yank flag for each
/// exact (name, version) pair.
pub struct YankIndex {
    entries: Vec<(String, String, bool)>,
}

/// The lookup table that a record list denotes; later records win.
pub closed spec fn map_of(entries: Seq<(String, String, bool)>) -> Map<PairView, bool>
    decreases entries.len(),
{
    if entries.len() == 0 {
        Map::empty()
    } else {
        map_of(entries.drop_last()).insert(
            (entries.last().0@, entries.last().1@),
            entries.last().2,
        )
    }
}

/// The yank status of `d` in table `m`: unknown when absent.
pub open spec fn yank_of(m: Map<PairView, bool>, d: PairView) -> Option<bool> {
    if m.dom().contains(d) {
        Some(m[d])
    } else {
        None
    }
}

impl YankIndex {
    /// The lookup table this index denotes.
    pub closed spec fn as_map(&self) -> Map<PairView, bool> {
        map_of(self.entries@)
    }

    /// An empty index.
    pub fn new() -> (r: YankIndex)
        ensures
            r.as_map() == Map::<PairView, bool>::empty(),
    {
        YankIndex { entries: Vec::new() }
    }

    /// Records the yank flag of one registry line, overriding any earlier
    /// record for the same pair.
    pub fn record(&mut self, name: String, ver: String, yanked: bool)
        ensures
            final(self).as_map() == old(self).as_map().insert((name@, ver@), yanked),
    {
        let ghost before = self.entries@;
        let ghost key: PairView = (name@, ver@);
        self.entries.push((name, ver, yanked));
        proof {
            assert(self.entries@.drop_last() =~= before);
        }
    }

    /// Looks up the yank status of an exact (name, version) pair.
    pub fn lookup(&self, name: &String, ver: &String) -> (r: Option<bool>)
        ensures
            r == yank_of(self.as_map(), (name@, ver@)),
    {
        proof {
            assert(self.entries@.subrange(0, self.entries@.len() as int) =~= self.entries@);
        }
        lookup_rec(&self.entries, self.entries.len(), name, ver)
    }
}

/// Scans the record list backward, so the latest record for a pair wins.
fn lookup_rec(v: &Vec<(String, String, bool)>, hi: usize, name: &String, ver: &String) -> (r:
    Option<bool>)
    requires
        hi <= v@.len(),
    ensures
        r == yank_of(map_of(v@.subrange(0, hi as int)), (name@, ver@)),
    decreases hi,
{
    let ghost pre = v@.subrange(0, hi as int);
    if hi == 0 {
        proof {
            assert(pre =~= Seq::<(String, String, bool)>::empty());
        }
        None
    } else {
        proof {
            assert(pre.drop_last() =~= v@.subrange(0, hi - 1));
            assert(pre.last() == v@[hi - 1]);
        }
        if v[hi - 1].0 == *name && v[hi - 1].1 == *ver {
            Some(v[hi - 1].2)
        } else {
            lookup_rec(v, hi - 1, name, ver)
        }
    }
}

/// The views of every dependency declared by a list of manifests, in
/// extraction order, with repetitions.
pub open spec fn all_dep_views(entries: Seq<(Ebuild, Vec<DepInfo>)>) -> Seq<PairView>
    decreases entries.len(),
{
    if entries.len() == 0 {
        Seq::empty()
    } else {
        all_dep_views(entries.drop_last()) + entries.last().1@.map_values(
            |d: DepInfo| d.view_pair(),
        )
    }
}

/// The (manifest, dependency) view pairs of a list of manifests, in
/// extraction order.
pub open spec fn keyed_stream(entries: Seq<(Ebuild, Vec<DepInfo>)>) -> Seq<(PairView, PairView)>
    decreases entries.len(),
{
    if entries.len() == 0 {
        Seq::empty()
    } else {
        keyed_stream(entries.drop_last()) + tag_deps(
            entries.last().0.view_pair(),
            entries.last().1@,
        )
    }
}

/// Tags every dependency of one manifest with the manifest's key.
pub open spec fn tag_deps(k: PairView, deps: Seq<DepInfo>) -> Seq<(PairView, PairView)> {
    deps.map_values(|d: DepInfo| (k, d.view_pair()))
}

/// `p` occurs in `s`.
pub open spec fn has_pair(s: Seq<PairView>, p: PairView) -> bool {
    exists|i: int| 0 <= i < s.len() && s[i] == p
}

/// The distinct elements of `s`, in order of first occurrence.
pub open spec fn distinct_list(s: Seq<PairView>) -> Seq<PairView>
    decreases s.len(),
{
    if s.len() == 0 {
        Seq::empty()
    } else if has_pair(s.drop_last(), s.last()) {
        distinct_list(s.drop_last())
    } else {
        distinct_list(s.drop_last()).push(s.last())
    }
}

/// The manifests referencing dependency `d`, in stream order, with one
/// entry per occurrence.
pub open spec fn refs_for(stream: Seq<(PairView, PairView)>, d: PairView) -> Seq<PairView>
    decreases stream.len(),
{
    if stream.len() == 0 {
        Seq::empty()
    } else {
        refs_for(stream.drop_last(), d) + if stream.last().1 == d {
            seq![stream.last().0]
        } else {
            Seq::empty()
        }
    }
}

/// A pair is in the deduplicated list exactly when it is in the original.
pub proof fn lemma_distinct_members(s: Seq<PairView>, p: PairView)
    ensures
        has_pair(distinct_list(s), p) == has_pair(s, p),
    decreases s.len(),
{
    if s.len() == 0 {
    } else {
        lemma_distinct_members(s.drop_last(), p);
        if p == s.last() {
            if has_pair(s.drop_last(), s.last()) {
            } else {
                assert(distinct_list(s)[distinct_list(s).len() - 1] == p);
            }
            assert(s[s.len() - 1] == p);
        } else {
            if has_pair(s, p) {
                let i = choose|i: int| 0 <= i < s.len() && s[i] == p;
                assert(s.drop_last()[i] == p);
            }
            if has_pair(s.drop_last(), p) {
                let i = choose|i: int| 0 <= i < s.drop_last().len() && s.drop_last()[i] == p;
                assert(s[i] == p);
            }
            if !has_pair(s.drop_last(), s.last()) {
                if has_pair(distinct_list(s), p) {
                    let i = choose|i: int|
                        0 <= i < distinct_list(s).len() && distinct_list(s)[i] == p;
                    assert(distinct_list(s.drop_last())[i] == p);
                }
                if has_pair(distinct_list(s.drop_last()), p) {
                    let i = choose|i: int|
                        0 <= i < distinct_list(s.drop_last()).len() && distinct_list(
                            s.drop_last(),
                        )[i] == p;
                    assert(distinct_list(s)[i] == p);
                }
            }
        }
    }
}

/// The deduplicated list holds no pair twice.
pub proof fn lemma_distinct_no_dup(s: Seq<PairView>)
    ensures
        forall|i: int, j: int|
            0 <= i < j < distinct_list(s).len() ==> distinct_list(s)[i] != distinct_list(s)[j],
    decreases s.len(),
{
    if s.len() == 0 {
    } else {
        lemma_distinct_no_dup(s.drop_last());
        if !has_pair(s.drop_last(), s.last()) {
            lemma_distinct_members(s.drop_last(), s.last());
            assert forall|i: int, j: int|
                0 <= i < j < distinct_list(s).len() implies distinct_list(s)[i] != distinct_list(
                s,
            )[j] by {
                if j < distinct_list(s).len() - 1 {
                } else {
                    if distinct_list(s.drop_last())[i] == s.last() {
                        assert(has_pair(distinct_list(s.drop_last()), s.last()));
                    }
                }
            }
        }
    }
}

/// Decides whether a specifier denoting the same pair as `d` is listed.
fn dep_listed(out: &Vec<DepInfo>, d: &DepInfo) -> (r: bool)
    ensures
        r == has_pair(out@.map_values(|x: DepInfo| x.view_pair()), d.view_pair()),
{
    let mut i: usize = 0;
    while i < out.len()
        invariant
            i <= out@.len(),
            forall|j: int| 0 <= j < i ==> #[trigger] out@[j].view_pair() != d.view_pair(),
        decreases out@.len() - i,
    {
        if out[i].same(d) {
            proof {
                assert(out@.map_values(|x: DepInfo| x.view_pair())[i as int] == d.view_pair());
            }
            return true;
        }
        i = i + 1;
    }
    proof {
        let ghost mapped = out@.map_values(|x: DepInfo| x.view_pair());
        if has_pair(mapped, d.view_pair()) {
            let idx = choose|idx: int| 0 <= idx < mapped.len() && mapped[idx] == d.view_pair();
            assert(mapped[idx] == out@[idx].view_pair());
        }
    }
    false
}

/// Deduplicates the declared dependencies of the joined extraction map:
/// each distinct (name, version) pair once, in order of first occurrence.
/// Advisory and yank lookups are then performed once per element of this
/// list, never once per reference.
pub fn distinct_deps(entries: &Vec<(Ebuild, Vec<DepInfo>)>) -> (out: Vec<DepInfo>)
    ensures
        out@.map_values(|x: DepInfo| x.view_pair()) == distinct_list(all_dep_views(entries@)),
{
    let mut out: Vec<DepInfo> = Vec::new();
    let mut i: usize = 0;
    proof {
        assert(entries@.subrange(0, 0) =~= Seq::<(Ebuild, Vec<DepInfo>)>::empty());
        assert(out@.map_values(|x: DepInfo| x.view_pair()) =~= Seq::<PairView>::empty());
    }
    while i < entries.len()
        invariant
            i <= entries@.len(),
            out@.map_values(|x: DepInfo| x.view_pair()) == distinct_list(
                all_dep_views(entries@.subrange(0, i as int)),
            ),
        decreases entries@.len() - i,
    {
        let ghost prefix_stream = all_dep_views(entries@.subrange(0, i as int));
        let ghost entry_deps = entries@[i as int].1@.map_values(|d: DepInfo| d.view_pair());
        let deps = &entries[i].1;
        let mut j: usize = 0;
        proof {
            assert(prefix_stream + entry_deps.subrange(0, 0) =~= prefix_stream);
        }
        while j < deps.len()
            invariant
                j <= deps@.len(),
                deps@ == entries@[i as int].1@,
                i < entries@.len(),
                entry_deps == entries@[i as int].1@.map_values(|d: DepInfo| d.view_pair()),
                prefix_stream == all_dep_views(entries@.subrange(0, i as int)),
                out@.map_values(|x: DepInfo| x.view_pair()) == distinct_list(
                    prefix_stream + entry_deps.subrange(0, j as int),
                ),
            decreases deps@.len() - j,
        {
            let ghost sofar = prefix_stream + entry_deps.subrange(0, j as int);
            proof {
                assert((prefix_stream + entry_deps.subrange(0, j + 1)).drop_last() =~= sofar);
                assert((prefix_stream + entry_deps.subrange(0, j + 1)).last() == deps@[
                    j as int].view_pair());
                lemma_distinct_members(sofar, deps@[j as int].view_pair());
            }
            if !dep_listed(&out, &deps[j]) {
                let copy = deps[j].duplicate();
                out.push(copy);
                proof {
                    assert(out@.map_values(|x: DepInfo| x.view_pair()) =~= distinct_list(
                        sofar,
                    ).push(deps@[j as int].view_pair()));
                }
            }
            j = j + 1;
        }
        proof {
            assert(entry_deps.subrange(0, deps@.len() as int) =~= entry_deps);
            assert(entries@.subrange(0, i + 1).drop_last() =~= entries@.subrange(0, i as int));
            assert(entries@.subrange(0, i + 1).last() == entries@[i as int]);
            assert(all_dep_views(entries@.subrange(0, i + 1)) == prefix_stream + entry_deps);
        }
        i = i + 1;
    }
    proof {
        assert(entries@.subrange(0, entries@.len() as int) =~= entries@);
    }
    out
}

/// Splitting a stream splits its reference list.
proof fn lemma_refs_concat(a: Seq<(PairView, PairView)>, b: Seq<(PairView, PairView)>, d: PairView)
    ensures
        refs_for(a + b, d) == refs_for(a, d) + refs_for(b, d),
    decreases b.len(),
{
    if b.len() == 0 {
        assert(a + b =~= a);
        assert(refs_for(a, d) + refs_for(b, d) =~= refs_for(a, d));
    } else {
        lemma_refs_concat(a, b.drop_last(), d);
        assert((a + b).drop_last() =~= a + b.drop_last());
        assert((a + b).last() == b.last());
        if b.last().1 == d {
            assert(refs_for(a, d) + (refs_for(b.drop_last(), d) + seq![b.last().0]) =~= (refs_for(
                a,
                d,
            ) + refs_for(b.drop_last(), d)) + seq![b.last().0]);
        } else {
            assert(refs_for(a, d) + (refs_for(b.drop_last(), d) + Seq::<PairView>::empty()) =~= (
            refs_for(a, d) + refs_for(b.drop_last(), d)) + Seq::<PairView>::empty());
        }
    }
}

/// Collects every manifest key referencing `d`, in extraction order.
fn collect_refs(entries: &Vec<(Ebuild, Vec<DepInfo>)>, d: &DepInfo) -> (out: Vec<Ebuild>)
    ensures
        out@.map_values(|e: Ebuild| e.view_pair()) == refs_for(
            keyed_stream(entries@),
            d.view_pair(),
        ),
{
    let mut out: Vec<Ebuild> = Vec::new();
    let mut i: usize = 0;
    proof {
        assert(entries@.subrange(0, 0) =~= Seq::<(Ebuild, Vec<DepInfo>)>::empty());
        assert(out@.map_values(|e: Ebuild| e.view_pair()) =~= Seq::<PairView>::empty());
    }
    while i < entries.len()
        invariant
            i <= entries@.len(),
            out@.map_values(|e: Ebuild| e.view_pair()) == refs_for(
                keyed_stream(entries@.subrange(0, i as int)),
                d.view_pair(),
            ),
        decreases entries@.len() - i,
    {
        let ghost prefix_refs = refs_for(keyed_stream(entries@.subrange(0, i as int)), d.view_pair());
        let ghost k = entries@[i as int].0.view_pair();
        let ghost tagged = tag_deps(k, entries@[i as int].1@);
        let deps = &entries[i].1;
        let key = &entries[i].0;
        let mut j: usize = 0;
        proof {
            assert(tagged.subrange(0, 0) =~= Seq::<(PairView, PairView)>::empty());
            assert(prefix_refs + refs_for(tagged.subrange(0, 0), d.view_pair()) =~= prefix_refs);
        }
        while j < deps.len()
            invariant
                j <= deps@.len(),
                deps@ == entries@[i as int].1@,
                i < entries@.len(),
                k == entries@[i as int].0.view_pair(),
                key.view_pair() == k,
                tagged == tag_deps(k, entries@[i as int].1@),
                prefix_refs == refs_for(
                    keyed_stream(entries@.subrange(0, i as int)),
                    d.view_pair(),
                ),
                out@.map_values(|e: Ebuild| e.view_pair()) == prefix_refs + refs_for(
                    tagged.subrange(0, j as int),
                    d.view_pair(),
                ),
            decreases deps@.len() - j,
        {
            proof {
                assert(tagged.subrange(0, j + 1).drop_last() =~= tagged.subrange(0, j as int));
                assert(tagged.subrange(0, j + 1).last() == (k, deps@[j as int].view_pair()));
            }
            if deps[j].same(d) {
                let copy = key.duplicate();
                out.push(copy);
                proof {
                    assert(refs_for(tagged.subrange(0, j + 1), d.view_pair()) =~= refs_for(
                        tagged.subrange(0, j as int),
                        d.view_pair(),
                    ).push(k));
                    assert(out@.map_values(|e: Ebuild| e.view_pair()) =~= (prefix_refs + refs_for(
                        tagged.subrange(0, j as int),
                        d.view_pair(),
                    )).push(k));
                    assert((prefix_refs + refs_for(tagged.subrange(0, j as int), d.view_pair()))
                        .push(k) =~= prefix_refs + refs_for(
                        tagged.subrange(0, j + 1),
                        d.view_pair(),
                    ));
                }
            } else {
                proof {
                    assert(refs_for(tagged.subrange(0, j + 1), d.view_pair()) =~= refs_for(
                        tagged.subrange(0, j as int),
                        d.view_pair(),
                    ));
                }
            }
            j = j + 1;
        }
        proof {
            assert(tagged.subrange(0, deps@.len() as int) =~= tagged);
            assert(entries@.subrange(0, i + 1).drop_last() =~= entries@.subrange(0, i as int));
            assert(entries@.subrange(0, i + 1).last() == entries@[i as int]);
            assert(keyed_stream(entries@.subrange(0, i + 1)) == keyed_stream(
                entries@.subrange(0, i as int),
            ) + tagged);
            lemma_refs_concat(keyed_stream(entries@.subrange(0, i as int)), tagged, d.view_pair());
        }
        i = i + 1;
    }
    proof {
        assert(entries@.subrange(0, entries@.len() as int) =~= entries@);
    }
    out
}

/// Copies a list of advisory summaries, preserving their views.
fn copy_advisories(advs: &Vec<AdvisoryMeta>) -> (out: Vec<AdvisoryMeta>)
    ensures
        adv_views(out@) == adv_views(advs@),
{
    let mut out: Vec<AdvisoryMeta> = Vec::new();
    let mut i: usize = 0;
    proof {
        assert(adv_views(out@) =~= adv_views(advs@).subrange(0, 0));
    }
    while i < advs.len()
        invariant
            i <= advs@.len(),
            adv_views(out@) == adv_views(advs@).subrange(0, i as int),
        decreases advs@.len() - i,
    {
        let copy = advs[i].duplicate();
        let ghost before = out@;
        out.push(copy);
        proof {
            assert(adv_views(out@) =~= adv_views(before).push(copy.view_triple()));
            assert(adv_views(advs@).subrange(0, i + 1) =~= adv_views(advs@).subrange(
                0,
                i as int,
            ).push(advs@[i as int].view_triple()));
            assert(adv_views(advs@)[i as int] == advs@[i as int].view_triple());
        }
        i = i + 1;
    }
    proof {
        assert(adv_views(advs@).subrange(0, advs@.len() as int) =~= adv_views(advs@));
    }
    out
}

/// What cross-referencing produces from a snapshot: one record per distinct
/// dependency, in first-occurrence order, carrying the advisory list
/// supplied for it, its yank status in the registry table, and every
/// manifest referencing it.
pub open spec fn xref_spec(
    entries: Seq<(Ebuild, Vec<DepInfo>)>,
    advs: Seq<Seq<AdvView>>,
    ymap: Map<PairView, bool>,
) -> Seq<(PairView, Seq<AdvView>, Option<bool>, Seq<PairView>)> {
    let dd = distinct_list(all_dep_views(entries));
    Seq::new(
        dd.len(),
        |j: int| (dd[j], advs[j], yank_of(ymap, dd[j]), refs_for(keyed_stream(entries), dd[j])),
    )
}

/// Builds one status record per distinct declared dependency. The advisory
/// lists are supplied positionally for `distinct_deps(entries)`, so each
/// advisory query and each yank lookup happens exactly once per distinct
/// pair, however many manifests reference it.
pub fn cross_reference(
    entries: &Vec<(Ebuild, Vec<DepInfo>)>,
    advisories: &Vec<Vec<AdvisoryMeta>>,
    yanks: &YankIndex,
) -> (out: Vec<CrateStatus>)
    requires
        advisories@.len() == distinct_list(all_dep_views(entries@)).len(),
    ensures
        out@.map_values(|cs: CrateStatus| status_view(cs)) == xref_spec(
            entries@,
            advisories@.map_values(|v: Vec<AdvisoryMeta>| adv_views(v@)),
            yanks.as_map(),
        ),
{
    let ghost goal = xref_spec(
        entries@,
        advisories@.map_values(|v: Vec<AdvisoryMeta>| adv_views(v@)),
        yanks.as_map(),
    );
    let dd = distinct_deps(entries);
    let mut out: Vec<CrateStatus> = Vec::new();
    let mut j: usize = 0;
    proof {
        assert(out@.map_values(|cs: CrateStatus| status_view(cs)) =~= goal.subrange(0, 0));
    }
    while j < dd.len()
        invariant
            j <= dd@.len(),
            dd@.map_values(|x: DepInfo| x.view_pair()) == distinct_list(all_dep_views(entries@)),
            advisories@.len() == distinct_list(all_dep_views(entries@)).len(),
            goal == xref_spec(
                entries@,
                advisories@.map_values(|v: Vec<AdvisoryMeta>| adv_views(v@)),
                yanks.as_map(),
            ),
            out@.map_values(|cs: CrateStatus| status_view(cs)) == goal.subrange(0, j as int),
        decreases dd@.len() - j,
    {
        let ghost dv = dd@[j as int].view_pair();
        proof {
            assert(distinct_list(all_dep_views(entries@))[j as int] == dv);
        }
        let ebuilds = collect_refs(entries, &dd[j]);
        let advs = copy_advisories(&advisories[j]);
        let yanked = yanks.lookup(&dd[j].name, &dd[j].ver);
        let id = dd[j].duplicate();
        let cs = CrateStatus { id, advisories: advs, yanked, ebuilds };
        proof {
            assert(status_view(cs) == goal[j as int]);
        }
        let ghost before = out@;
        out.push(cs);
        proof {
            assert(out@.map_values(|cs: CrateStatus| status_view(cs)) =~= before.map_values(
                |cs: CrateStatus| status_view(cs),
            ).push(goal[j as int]));
            assert(goal.subrange(0, j + 1) =~= goal.subrange(0, j as int).push(goal[j as int]));
        }
        j = j + 1;
    }
    proof {
        assert(goal.subrange(0, goal.len() as int) =~= goal);
        assert(dd@.len() == distinct_list(all_dep_views(entries@)).len());
    }
    out
}

/// Cross-referencing one snapshot twice produces identical results, and a
/// result never holds two records for the same (name, version) pair: the
/// record list is a function of the extraction map, the advisory lists and
/// the registry table alone.
pub proof fn lemma_cross_reference_idempotent(
    entries: Seq<(Ebuild, Vec<DepInfo>)>,
    advs: Seq<Seq<AdvView>>,
    ymap: Map<PairView, bool>,
    r1: Seq<(PairView, Seq<AdvView>, Option<bool>, Seq<PairView>)>,
    r2: Seq<(PairView, Seq<AdvView>, Option<bool>, Seq<PairView>)>,
)
    requires
        r1 == xref_spec(entries, advs, ymap),
        r2 == xref_spec(entries, advs, ymap),
    ensures
        r1 == r2,
        forall|i: int, j: int| 0 <= i < j < r1.len() ==> r1[i].0 != r1[j].0,
{
    lemma_distinct_no_dup(all_dep_views(entries));
    let dd = distinct_list(all_dep_views(entries));
    assert forall|i: int, j: int| 0 <= i < j < r1.len() implies r1[i].0 != r1[j].0 by {
        assert(r1[i].0 == dd[i]);
        assert(r1[j].0 == dd[j]);
    }
}

} // verus!
