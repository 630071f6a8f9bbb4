//! The ranking engine: orders status records by descending composite key —
//! priority class first (any advisory, then yanked, then unknown, then not
//! yanked), then the count of referencing manifests of the primary overlay,
//! then the maximum advisory severity, then the total reference count. Ties
//! keep no guaranteed order: the input's iteration order is not stable
//! across runs, and the contract deliberately does not pin it.
use vstd::prelude::*;
use vstd::multiset::Multiset;

use crate::Ebuild;
use crate::status::AdvisoryMeta;
use crate::status::CrateStatus;

verus! {

broadcast use vstd::seq_lib::group_to_multiset_ensures;

/// The priority class of a record: any advisory ranks over yanked, over
/// unknown, over not yanked.
pub open spec fn prio_of(cs: CrateStatus) -> int {
    if cs.advisories@.len() > 0 {
        3
    } else {
        match cs.yanked {
            Some(true) => 2,
            None => 1,
            Some(false) => 0,
        }
    }
}

/// How many referencing manifests belong to the primary overlay.
pub open spec fn count_primary(ebuilds: Seq<Ebuild>, primary: Seq<char>) -> int
    decreases ebuilds.len(),
{
    if ebuilds.len() == 0 {
        0
    } else {
        count_primary(ebuilds.drop_last(), primary) + if ebuilds.last().overlay@ == primary {
            1int
        } else {
            0int
        }
    }
}

/// The maximum severity score over the advisories, in thousandths; an
/// advisory without a score is ignored, and no score at all ranks below
/// any present score.
pub open spec fn max_sev(advs: Seq<AdvisoryMeta>) -> int
    decreases advs.len(),
{
    if advs.len() == 0 {
        i64::MIN as int
    } else {
        let rest = max_sev(advs.drop_last());
        match advs.last().severity_milli {
            Some(s) => if s > rest {
                s as int
            } else {
                rest
            },
            None => rest,
        }
    }
}

/// The composite ranking key of a record.
pub open spec fn rank_key(cs: CrateStatus, primary: Seq<char>) -> (int, int, int, int) {
    (
        prio_of(cs),
        count_primary(cs.ebuilds@, primary),
        max_sev(cs.advisories@),
        cs.ebuilds@.len() as int,
    )
}

/// `a` ranks at least as high as `b`: lexicographic comparison of the
/// composite keys.
pub open spec fn key_ge(a: (int, int, int, int), b: (int, int, int, int)) -> bool {
    a.0 > b.0 || (a.0 == b.0 && (a.1 > b.1 || (a.1 == b.1 && (a.2 > b.2 || (a.2 == b.2 && a.3
        >= b.3)))))
}

fn prio_exec(cs: &CrateStatus) -> (r: i64)
    ensures
        r as int == prio_of(*cs),
{
    if cs.advisories.len() > 0 {
        3
    } else {
        match cs.yanked {
            Some(true) => 2,
            None => 1,
            Some(false) => 0,
        }
    }
}

fn count_primary_exec(ebuilds: &Vec<Ebuild>, primary: &String) -> (r: usize)
    ensures
        r as int == count_primary(ebuilds@, primary@),
{
    let mut r: usize = 0;
    let mut i: usize = 0;
    proof {
        assert(ebuilds@.subrange(0, 0) =~= Seq::<Ebuild>::empty());
    }
    while i < ebuilds.len()
        invariant
            i <= ebuilds@.len(),
            r as int == count_primary(ebuilds@.subrange(0, i as int), primary@),
            r <= i,
        decreases ebuilds@.len() - i,
    {
        proof {
            assert(ebuilds@.subrange(0, i + 1).drop_last() =~= ebuilds@.subrange(0, i as int));
            assert(ebuilds@.subrange(0, i + 1).last() == ebuilds@[i as int]);
        }
        if ebuilds[i].overlay == *primary {
            r = r + 1;
        }
        i = i + 1;
    }
    proof {
        assert(ebuilds@.subrange(0, ebuilds@.len() as int) =~= ebuilds@);
    }
    r
}

fn max_sev_exec(advs: &Vec<AdvisoryMeta>) -> (r: i64)
    ensures
        r as int == max_sev(advs@),
{
    let mut r: i64 = i64::MIN;
    let mut i: usize = 0;
    proof {
        assert(advs@.subrange(0, 0) =~= Seq::<AdvisoryMeta>::empty());
    }
    while i < advs.len()
        invariant
            i <= advs@.len(),
            r as int == max_sev(advs@.subrange(0, i as int)),
        decreases advs@.len() - i,
    {
        proof {
            assert(advs@.subrange(0, i + 1).drop_last() =~= advs@.subrange(0, i as int));
            assert(advs@.subrange(0, i + 1).last() == advs@[i as int]);
        }
        match advs[i].severity_milli {
            Some(s) => {
                if s > r {
                    r = s;
                }
            },
            None => {},
        }
        i = i + 1;
    }
    proof {
        assert(advs@.subrange(0, advs@.len() as int) =~= advs@);
    }
    r
}

/// Compares two records by the composite key.
fn key_ge_exec(a: &CrateStatus, b: &CrateStatus, primary: &String) -> (r: bool)
    ensures
        r == key_ge(rank_key(*a, primary@), rank_key(*b, primary@)),
{
    let pa = prio_exec(a);
    let pb = prio_exec(b);
    if pa != pb {
        return pa > pb;
    }
    let ca = count_primary_exec(&a.ebuilds, primary);
    let cb = count_primary_exec(&b.ebuilds, primary);
    if ca != cb {
        return ca > cb;
    }
    let sa = max_sev_exec(&a.advisories);
    let sb = max_sev_exec(&b.advisories);
    if sa != sb {
        return sa > sb;
    }
    a.ebuilds.len() >= b.ebuilds.len()
}

/// Sorts the status records by descending composite key. The result is a
/// permutation of the input; the order of records with equal keys is not
/// specified.
pub fn rank(statuses: Vec<CrateStatus>, primary: &String) -> (out: Vec<CrateStatus>)
    ensures
        out@.len() == statuses@.len(),
        out@.to_multiset() == statuses@.to_multiset(),
        forall|i: int, j: int|
            0 <= i <= j < out@.len() ==> key_ge(
                rank_key(#[trigger] out@[i], primary@),
                rank_key(#[trigger] out@[j], primary@),
            ),
{
    let mut rest = statuses;
    let mut out: Vec<CrateStatus> = Vec::new();
    proof {
        assert(out@.to_multiset().add(rest@.to_multiset()) =~= rest@.to_multiset());
    }
    while rest.len() > 0
        invariant
            out@.len() + rest@.len() == statuses@.len(),
            out@.to_multiset().add(rest@.to_multiset()) == statuses@.to_multiset(),
            forall|i: int, j: int|
                0 <= i <= j < out@.len() ==> key_ge(
                    rank_key(#[trigger] out@[i], primary@),
                    rank_key(#[trigger] out@[j], primary@),
                ),
            forall|i: int, j: int|
                0 <= i < out@.len() && 0 <= j < rest@.len() ==> key_ge(
                    rank_key(#[trigger] out@[i], primary@),
                    rank_key(#[trigger] rest@[j], primary@),
                ),
        decreases rest@.len(),
    {
        let mut m: usize = 0;
        let mut t: usize = 1;
        while t < rest.len()
            invariant
                m < t <= rest@.len(),
                forall|u: int|
                    0 <= u < t ==> key_ge(
                        rank_key(rest@[m as int], primary@),
                        rank_key(#[trigger] rest@[u], primary@),
                    ),
            decreases rest@.len() - t,
        {
            if key_ge_exec(&rest[t], &rest[m], primary) {
                proof {
                    assert forall|u: int|
                        0 <= u < t + 1 implies key_ge(
                        rank_key(rest@[t as int], primary@),
                        rank_key(#[trigger] rest@[u], primary@),
                    ) by {
                        if u < t {
                            assert(key_ge(
                                rank_key(rest@[m as int], primary@),
                                rank_key(rest@[u], primary@),
                            ));
                        }
                    }
                }
                m = t;
            }
            t = t + 1;
        }
        let ghost rest_before = rest@;
        let x = rest.remove(m);
        let ghost out_before = out@;
        out.push(x);
        proof {
            assert(rest_before.contains(x)) by {
                assert(rest_before[m as int] == x);
            }
            assert(rest_before.to_multiset().count(x) > 0);
            assert(out@ == out_before.push(x));
            assert(out_before.push(x).to_multiset() =~= out_before.to_multiset().insert(x));
            assert(rest@ == rest_before.remove(m as int));
            assert(rest_before.remove(m as int).to_multiset() =~= rest_before.to_multiset().remove(
                x,
            ));
            assert(out@.to_multiset().add(rest@.to_multiset()) =~= out_before.to_multiset().add(
                rest_before.to_multiset(),
            ));
            assert forall|i: int, j: int|
                0 <= i < out@.len() && 0 <= j < rest@.len() implies key_ge(
                rank_key(#[trigger] out@[i], primary@),
                rank_key(#[trigger] rest@[j], primary@),
            ) by {
                let jj = if j < m { j } else { j + 1 };
                assert(rest@[j] == rest_before[jj]);
                assert(key_ge(rank_key(x, primary@), rank_key(rest_before[jj], primary@)));
                if i < out@.len() - 1 {
                    assert(key_ge(
                        rank_key(out_before[i], primary@),
                        rank_key(rest_before[m as int], primary@),
                    ));
                }
            }
        }
    }
    proof {
        assert(rest@.to_multiset() =~= Multiset::<CrateStatus>::empty());
        assert(out@.to_multiset().add(Multiset::<CrateStatus>::empty()) =~= out@.to_multiset());
    }
    out
}

/// A record with at least one advisory always ranks strictly above a
/// record with none, whatever their yank status or reference counts.
pub proof fn lemma_advisory_outranks(a: CrateStatus, b: CrateStatus, primary: Seq<char>)
    requires
        a.advisories@.len() >= 1,
        b.advisories@.len() == 0,
    ensures
        key_ge(rank_key(a, primary), rank_key(b, primary)),
        !key_ge(rank_key(b, primary), rank_key(a, primary)),
{
}

/// In a ranked list, no advisory-free record ever precedes a record that
/// has advisories.
pub proof fn lemma_ranked_advisories_first(out: Seq<CrateStatus>, primary: Seq<char>, i: int, j: int)
    requires
        forall|u: int, v: int|
            0 <= u <= v < out.len() ==> key_ge(
                rank_key(#[trigger] out[u], primary),
                rank_key(#[trigger] out[v], primary),
            ),
        0 <= i <= j < out.len(),
        out[i].advisories@.len() == 0,
    ensures
        out[j].advisories@.len() == 0,
{
    if out[j].advisories@.len() >= 1 {
        lemma_advisory_outranks(out[j], out[i], primary);
        assert(key_ge(rank_key(out[i], primary), rank_key(out[j], primary)));
    }
}

} // verus!
