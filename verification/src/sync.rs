//! Synchronization planning for one overlay: scoring and ordering of its
//! transport sources, the offline-mode skip rules, and the small decisions
//! of the repository engine (URL normalization, open-or-initialize). The
//! network itself is driven outside the library; these functions fix every
//! decision the driver takes.
use vstd::prelude::*;

use crate::overlay::Source;
use crate::overlay::SourceType;
use crate::text::begins_with;

verus! {

/// The score of a source URL. Higher scores are preferred: authenticated,
/// firewall-friendly transports first.
pub open spec fn score_spec(u: Seq<char>) -> int {
    if begins_with(u, "git://"@) {
        -2
    } else if begins_with(u, "https://"@) {
        -1
    } else if begins_with(u, "git@"@) {
        1
    } else if begins_with(u, "ssh://"@) || begins_with(u, "git+ssh://"@) || begins_with(
        u,
        "ssh+git://"@,
    ) {
        2
    } else {
        0
    }
}

/// Scores a source URL.
pub fn source_score(url: &str) -> (s: i8)
    ensures
        s as int == score_spec(url@),
{
    let v = crate::text::chars_of(url);
    let git = crate::text::chars_of("git://");
    let https = crate::text::chars_of("https://");
    let gitat = crate::text::chars_of("git@");
    let ssh = crate::text::chars_of("ssh://");
    let gitssh = crate::text::chars_of("git+ssh://");
    let sshgit = crate::text::chars_of("ssh+git://");
    if crate::text::has_at(&v, &git, 0) {
        -2
    } else if crate::text::has_at(&v, &https, 0) {
        -1
    } else if crate::text::has_at(&v, &gitat, 0) {
        1
    } else if crate::text::has_at(&v, &ssh, 0) || crate::text::has_at(&v, &gitssh, 0)
        || crate::text::has_at(&v, &sshgit, 0) {
        2
    } else {
        0
    }
}

/// The git-transport sources of `s` whose URL scores `k`, in their original
/// order.
pub open spec fn git_with_score(s: Seq<Source>, k: int) -> Seq<Source>
    decreases s.len(),
{
    if s.len() == 0 {
        Seq::empty()
    } else {
        git_with_score(s.drop_last(), k) + if s.last().typ is Git && score_spec(s.last().url@)
            == k {
            seq![s.last()]
        } else {
            Seq::empty()
        }
    }
}

/// The git-transport sources of `s` ordered by descending score, sources of
/// equal score keeping their original relative order.
pub open spec fn ordered_git_sources(s: Seq<Source>) -> Seq<Source> {
    git_with_score(s, 2) + git_with_score(s, 1) + git_with_score(s, 0) + git_with_score(s, -1)
        + git_with_score(s, -2)
}

/// How the synchronizer proceeds for one overlay.
pub enum SyncPlan {
    /// The overlay has no git-transport source: it contributes nothing.
    SkipNoGitSources,
    /// Offline, and the local repository was never cloned: it contributes
    /// nothing.
    SkipNotCloned,
    /// Open the local repository and try the ordered sources.
    Proceed(Vec<Source>),
}

/// Decides how to synchronize one overlay: its git sources ordered by
/// descending score, or a skip.
pub fn plan_overlay_sync(sources: &Vec<Source>, offline: bool, repo_exists: bool) -> (r: SyncPlan)
    ensures
        match r {
            SyncPlan::SkipNoGitSources => forall|i: int|
                0 <= i < sources@.len() ==> !(sources@[i].typ is Git),
            SyncPlan::SkipNotCloned => offline && !repo_exists && exists|i: int|
                0 <= i < sources@.len() && sources@[i].typ is Git,
            SyncPlan::Proceed(ordered) => !(offline && !repo_exists) && (exists|i: int|
                0 <= i < sources@.len() && sources@[i].typ is Git) && ordered@.map_values(
                |s: Source| s.view_pair(),
            ) == ordered_git_sources(sources@).map_values(|s: Source| s.view_pair()),
        },
{
    let mut any_git = false;
    let mut i: usize = 0;
    while i < sources.len()
        invariant
            i <= sources@.len(),
            any_git == exists|j: int| 0 <= j < i && sources@[j].typ is Git,
        decreases sources@.len() - i,
    {
        if sources[i].typ == SourceType::Git {
            any_git = true;
        }
        i = i + 1;
    }
    if !any_git {
        return SyncPlan::SkipNoGitSources;
    }
    if offline && !repo_exists {
        return SyncPlan::SkipNotCloned;
    }
    let mut b2: Vec<Source> = Vec::new();
    let mut b1: Vec<Source> = Vec::new();
    let mut b0: Vec<Source> = Vec::new();
    let mut bm1: Vec<Source> = Vec::new();
    let mut bm2: Vec<Source> = Vec::new();
    let mut i: usize = 0;
    proof {
        assert(sources@.subrange(0, 0) =~= Seq::<Source>::empty());
    }
    while i < sources.len()
        invariant
            i <= sources@.len(),
            b2@.map_values(|s: Source| s.view_pair()) == git_with_score(
                sources@.subrange(0, i as int),
                2,
            ).map_values(|s: Source| s.view_pair()),
            b1@.map_values(|s: Source| s.view_pair()) == git_with_score(
                sources@.subrange(0, i as int),
                1,
            ).map_values(|s: Source| s.view_pair()),
            b0@.map_values(|s: Source| s.view_pair()) == git_with_score(
                sources@.subrange(0, i as int),
                0,
            ).map_values(|s: Source| s.view_pair()),
            bm1@.map_values(|s: Source| s.view_pair()) == git_with_score(
                sources@.subrange(0, i as int),
                -1,
            ).map_values(|s: Source| s.view_pair()),
            bm2@.map_values(|s: Source| s.view_pair()) == git_with_score(
                sources@.subrange(0, i as int),
                -2,
            ).map_values(|s: Source| s.view_pair()),
        decreases sources@.len() - i,
    {
        let ghost prefix = sources@.subrange(0, i as int);
        let ghost step = sources@.subrange(0, i + 1);
        proof {
            lemma_bucket_step(sources@, i as int, 2);
            lemma_bucket_step(sources@, i as int, 1);
            lemma_bucket_step(sources@, i as int, 0);
            lemma_bucket_step(sources@, i as int, -1);
            lemma_bucket_step(sources@, i as int, -2);
        }
        if sources[i].typ == SourceType::Git {
            let s = source_score(sources[i].url.as_str());
            let copy = sources[i].duplicate();
            proof {
                assert(copy.view_pair() == sources@[i as int].view_pair());
            }
            if s == 2 {
                b2.push(copy);
                proof {
                    assert(b2@.map_values(|s: Source| s.view_pair()) =~= git_with_score(prefix, 2).map_values(|s: Source| s.view_pair()).push(
                        sources@[i as int].view_pair(),
                    ));
                    assert(git_with_score(step, 2).map_values(|s: Source| s.view_pair()) =~= git_with_score(
                        prefix,
                        2,
                    ).map_values(|s: Source| s.view_pair()).push(sources@[i as int].view_pair()));
                }
            } else if s == 1 {
                b1.push(copy);
                proof {
                    assert(b1@.map_values(|s: Source| s.view_pair()) =~= git_with_score(prefix, 1).map_values(|s: Source| s.view_pair()).push(
                        sources@[i as int].view_pair(),
                    ));
                    assert(git_with_score(step, 1).map_values(|s: Source| s.view_pair()) =~= git_with_score(
                        prefix,
                        1,
                    ).map_values(|s: Source| s.view_pair()).push(sources@[i as int].view_pair()));
                }
            } else if s == 0 {
                b0.push(copy);
                proof {
                    assert(b0@.map_values(|s: Source| s.view_pair()) =~= git_with_score(prefix, 0).map_values(|s: Source| s.view_pair()).push(
                        sources@[i as int].view_pair(),
                    ));
                    assert(git_with_score(step, 0).map_values(|s: Source| s.view_pair()) =~= git_with_score(
                        prefix,
                        0,
                    ).map_values(|s: Source| s.view_pair()).push(sources@[i as int].view_pair()));
                }
            } else if s == -1 {
                bm1.push(copy);
                proof {
                    assert(bm1@.map_values(|s: Source| s.view_pair()) =~= git_with_score(prefix, -1).map_values(|s: Source| s.view_pair()).push(
                        sources@[i as int].view_pair(),
                    ));
                    assert(git_with_score(step, -1).map_values(|s: Source| s.view_pair()) =~= git_with_score(
                        prefix,
                        -1,
                    ).map_values(|s: Source| s.view_pair()).push(sources@[i as int].view_pair()));
                }
            } else {
                bm2.push(copy);
                proof {
                    assert(s as int == -2);
                    assert(bm2@.map_values(|s: Source| s.view_pair()) =~= git_with_score(prefix, -2).map_values(|s: Source| s.view_pair()).push(
                        sources@[i as int].view_pair(),
                    ));
                    assert(git_with_score(step, -2).map_values(|s: Source| s.view_pair()) =~= git_with_score(
                        prefix,
                        -2,
                    ).map_values(|s: Source| s.view_pair()).push(sources@[i as int].view_pair()));
                }
            }
        }
        i = i + 1;
    }
    proof {
        assert(sources@.subrange(0, sources@.len() as int) =~= sources@);
    }
    let ghost vb2 = b2@;
    let ghost vb1 = b1@;
    let ghost vb0 = b0@;
    let ghost vbm1 = bm1@;
    let ghost vbm2 = bm2@;
    let mut ordered = b2;
    let mut b1 = b1;
    let mut b0 = b0;
    let mut bm1 = bm1;
    let mut bm2 = bm2;
    ordered.append(&mut b1);
    ordered.append(&mut b0);
    ordered.append(&mut bm1);
    ordered.append(&mut bm2);
    proof {
        let ghost g2 = git_with_score(sources@, 2);
        let ghost g1 = git_with_score(sources@, 1);
        let ghost g0 = git_with_score(sources@, 0);
        let ghost gm1 = git_with_score(sources@, -1);
        let ghost gm2 = git_with_score(sources@, -2);
        lemma_map_concat(vb2, vb1);
        lemma_map_concat(vb2 + vb1, vb0);
        lemma_map_concat(vb2 + vb1 + vb0, vbm1);
        lemma_map_concat(vb2 + vb1 + vb0 + vbm1, vbm2);
        lemma_map_concat(g2, g1);
        lemma_map_concat(g2 + g1, g0);
        lemma_map_concat(g2 + g1 + g0, gm1);
        lemma_map_concat(g2 + g1 + g0 + gm1, gm2);
        assert(ordered@ == vb2 + vb1 + vb0 + vbm1 + vbm2);
    }
    SyncPlan::Proceed(ordered)
}

/// Mapping to view pairs distributes over concatenation.
proof fn lemma_map_concat(a: Seq<Source>, b: Seq<Source>)
    ensures
        (a + b).map_values(|s: Source| s.view_pair()) == a.map_values(|s: Source| s.view_pair())
            + b.map_values(|s: Source| s.view_pair()),
{
    assert((a + b).map_values(|s: Source| s.view_pair()) =~= a.map_values(
        |s: Source| s.view_pair(),
    ) + b.map_values(|s: Source| s.view_pair()));
}

/// Extending the scanned prefix by one source extends exactly the bucket
/// the source's score selects.
proof fn lemma_bucket_step(s: Seq<Source>, i: int, k: int)
    requires
        0 <= i < s.len(),
    ensures
        git_with_score(s.subrange(0, i + 1), k) == if s[i].typ is Git && score_spec(s[i].url@)
            == k {
            git_with_score(s.subrange(0, i), k).push(s[i])
        } else {
            git_with_score(s.subrange(0, i), k)
        },
{
    assert(s.subrange(0, i + 1).drop_last() =~= s.subrange(0, i));
    assert(s.subrange(0, i + 1).last() == s[i]);
    if s[i].typ is Git && score_spec(s[i].url@) == k {
        assert(git_with_score(s.subrange(0, i), k) + seq![s[i]] =~= git_with_score(
            s.subrange(0, i),
            k,
        ).push(s[i]));
    } else {
        assert(git_with_score(s.subrange(0, i), k) + Seq::<Source>::empty() =~= git_with_score(
            s.subrange(0, i),
            k,
        ));
    }
}

/// A URL with an `ssh+git://` or `git+ssh://` scheme, stripped to the plain
/// form the transport accepts; any other URL unchanged.
pub open spec fn normalize_spec(u: Seq<char>) -> Seq<char> {
    if begins_with(u, "ssh+git://"@) || begins_with(u, "git+ssh://"@) {
        u.skip(10)
    } else {
        u
    }
}

/// Normalizes a source URL before handing it to the transport.
pub fn normalize_url(url: &str) -> (r: String)
    ensures
        r@ == normalize_spec(url@),
{
    let v = crate::text::chars_of(url);
    let sshgit = crate::text::chars_of("ssh+git://");
    let gitssh = crate::text::chars_of("git+ssh://");
    proof {
        reveal_strlit("ssh+git://");
        reveal_strlit("git+ssh://");
    }
    if crate::text::has_at(&v, &sshgit, 0) || crate::text::has_at(&v, &gitssh, 0) {
        let r = String::from_str(url.substring_char(10, v.len()));
        proof {
            assert(r@ =~= url@.skip(10));
        }
        r
    } else {
        String::from_str(url)
    }
}

/// How the engine opens the local repository directory.
pub enum OpenAction {
    /// The directory exists with content: open it as a bare repository.
    OpenExisting,
    /// The directory exists but is empty (an aborted initialization):
    /// remove it, then initialize a new bare repository.
    RemoveAndInit,
    /// Nothing is there yet: initialize a new bare repository.
    Init,
}

/// Decides how to open the local repository at a path, given whether the
/// path is a directory and whether that directory is empty.
pub fn plan_open(is_dir: bool, is_empty_dir: bool) -> (r: OpenAction)
    ensures
        is_dir && is_empty_dir ==> r is RemoveAndInit,
        is_dir && !is_empty_dir ==> r is OpenExisting,
        !is_dir ==> r is Init,
{
    if is_dir {
        if is_empty_dir {
            OpenAction::RemoveAndInit
        } else {
            OpenAction::OpenExisting
        }
    } else {
        OpenAction::Init
    }
}

/// What the synchronizer does once the repository is open, given the mode
/// and whether a HEAD reference resolves locally.
pub enum HeadPlan {
    /// Offline with a resolvable HEAD: use it without touching the network.
    UseLocalHead,
    /// Offline with no resolvable HEAD: the overlay contributes nothing.
    SkipNoHead,
    /// Online: try each ordered source, falling back to the local HEAD.
    TrySources,
}

/// Decides how to obtain the working HEAD.
pub fn plan_head(offline: bool, head_resolvable: bool) -> (r: HeadPlan)
    ensures
        offline && head_resolvable ==> r is UseLocalHead,
        offline && !head_resolvable ==> r is SkipNoHead,
        !offline ==> r is TrySources,
{
    if offline {
        if head_resolvable {
            HeadPlan::UseLocalHead
        } else {
            HeadPlan::SkipNoHead
        }
    } else {
        HeadPlan::TrySources
    }
}

/// The predicate selecting git-transport sources whose URL scores `k`.
pub open spec fn score_is(k: int) -> spec_fn(Source) -> bool {
    |s: Source| s.typ is Git && score_spec(s.url@) == k
}

/// Filtering a score bucket by a score keeps it whole when the scores
/// agree and empties it otherwise.
proof fn lemma_bucket_filter(s: Seq<Source>, k: int, k2: int)
    ensures
        git_with_score(s, k).filter(score_is(k2)) == if k == k2 {
            git_with_score(s, k)
        } else {
            Seq::<Source>::empty()
        },
    decreases s.len(),
{
    reveal(Seq::filter);
    if s.len() == 0 {
    } else {
        lemma_bucket_filter(s.drop_last(), k, k2);
        let prev = git_with_score(s.drop_last(), k);
        if s.last().typ is Git && score_spec(s.last().url@) == k {
            assert(prev + seq![s.last()] =~= prev.push(s.last()));
            Seq::lemma_filter_push(prev, s.last(), score_is(k2));
            assert(score_is(k2)(s.last()) == (k == k2));
        } else {
            assert(prev + Seq::<Source>::empty() =~= prev);
        }
    }
}

/// Sources of equal score keep their original relative order: the ordered
/// source list, restricted to the git sources of any one score, is exactly
/// those sources in their input order.
pub proof fn lemma_ordering_stable(s: Seq<Source>, k: int)
    requires
        -2 <= k <= 2,
    ensures
        ordered_git_sources(s).filter(score_is(k)) == git_with_score(s, k),
{
    broadcast use Seq::filter_distributes_over_add;

    lemma_bucket_filter(s, 2, k);
    lemma_bucket_filter(s, 1, k);
    lemma_bucket_filter(s, 0, k);
    lemma_bucket_filter(s, -1, k);
    lemma_bucket_filter(s, -2, k);
    assert(ordered_git_sources(s).filter(score_is(k)) =~= git_with_score(s, k));
}

/// Source scoring is a total order over the transport schemes: a `git://`
/// URL scores below an `https://` URL, which scores below an SSH-alias
/// `git@` URL, which scores below an explicit `ssh://` or `git+ssh://` URL.
pub proof fn lemma_score_total_order(a: Seq<char>, b: Seq<char>, c: Seq<char>, d: Seq<char>)
    requires
        begins_with(a, "git://"@),
        begins_with(b, "https://"@),
        begins_with(c, "git@"@),
        begins_with(d, "ssh://"@) || begins_with(d, "git+ssh://"@),
    ensures
        score_spec(a) < score_spec(b) < score_spec(c) < score_spec(d),
{
    reveal_strlit("git://");
    reveal_strlit("https://");
    reveal_strlit("git@");
    reveal_strlit("ssh://");
    reveal_strlit("git+ssh://");
    reveal_strlit("ssh+git://");
    assert(score_spec(a) == -2);
    assert(score_spec(b) == -1) by {
        assert(b.subrange(0, 8)[0] == b[0]);
        if begins_with(b, "git://"@) {
            assert(b.subrange(0, 6)[0] == b[0]);
            assert(false);
        }
    }
    assert(score_spec(c) == 1) by {
        assert(c.subrange(0, 4)[0] == c[0]);
        assert(c.subrange(0, 4)[3] == c[3]);
        if begins_with(c, "git://"@) {
            assert(c.subrange(0, 6)[3] == c[3]);
            assert(false);
        }
        if begins_with(c, "https://"@) {
            assert(c.subrange(0, 8)[0] == c[0]);
            assert(false);
        }
    }
    assert(score_spec(d) == 2) by {
        if begins_with(d, "ssh://"@) {
            assert(d.subrange(0, 6)[0] == d[0]);
            if begins_with(d, "git://"@) {
                assert(d.subrange(0, 6)[0] == d[0]);
                assert(false);
            }
            if begins_with(d, "https://"@) {
                assert(d.subrange(0, 8)[0] == d[0]);
                assert(false);
            }
            if begins_with(d, "git@"@) {
                assert(d.subrange(0, 4)[0] == d[0]);
                assert(false);
            }
        } else {
            assert(d.subrange(0, 10)[3] == d[3]);
            assert(d.subrange(0, 10)[0] == d[0]);
            if begins_with(d, "git://"@) {
                assert(d.subrange(0, 6)[3] == d[3]);
                assert(false);
            }
            if begins_with(d, "https://"@) {
                assert(d.subrange(0, 8)[0] == d[0]);
                assert(false);
            }
            if begins_with(d, "git@"@) {
                assert(d.subrange(0, 4)[3] == d[3]);
                assert(false);
            }
        }
    }
}

} // verus!
