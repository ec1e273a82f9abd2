//! The Contribution Aggregator: derives an `owner/name` key from each
//! pull request's URL, groups pull requests by that key, computes
//! per-repository statistics, sorts by activity and truncates.

use vstd::prelude::*;
use vstd::string::StringExecFns;

use crate::errors::StatsError;
use crate::sequences::lemma_insert_to_multiset;
use crate::text::{repo_key, repo_key_of};
use crate::types::{cr_views, pr_views, ContributedRepo, CrView, PrView, PullRequest};
use crate::created::capped_len;

verus! {

/// The `owner/name` key of a pull request, read from its URL.
pub open spec fn pr_key(p: PrView) -> Option<Seq<char>> {
    repo_key(p.url)
}

/// The pull requests of `prs` whose URL names the repository `key`, in
/// input order.
pub open spec fn bucket(prs: Seq<PrView>, key: Seq<char>) -> Seq<PrView>
    decreases prs.len(),
{
    if prs.len() == 0 {
        Seq::<PrView>::empty()
    } else {
        let b = bucket(prs.drop_last(), key);
        if pr_key(prs.last()) == Some(key) {
            b.push(prs.last())
        } else {
            b
        }
    }
}

proof fn lemma_bucket_push(s: Seq<PrView>, x: PrView, key: Seq<char>)
    ensures
        bucket(s.push(x), key) == if pr_key(x) == Some(key) {
            bucket(s, key).push(x)
        } else {
            bucket(s, key)
        },
{
    assert(s.push(x).drop_last() =~= s);
    assert(s.push(x).last() == x);
}

proof fn lemma_bucket_len_le(s: Seq<PrView>, key: Seq<char>)
    ensures
        bucket(s, key).len() <= s.len(),
    decreases s.len(),
{
    if s.len() > 0 {
        lemma_bucket_len_le(s.drop_last(), key);
    }
}

proof fn lemma_bucket_elems(s: Seq<PrView>, key: Seq<char>)
    ensures
        forall|i: int|
            0 <= i < bucket(s, key).len() ==> pr_key(#[trigger] bucket(s, key)[i]) == Some(key)
                && s.contains(bucket(s, key)[i]),
    decreases s.len(),
{
    if s.len() > 0 {
        lemma_bucket_elems(s.drop_last(), key);
        let b = bucket(s, key);
        let bb = bucket(s.drop_last(), key);
        assert forall|i: int|
            0 <= i < b.len() implies pr_key(b[i]) == Some(key) && s.contains(b[i]) by {
            if pr_key(s.last()) == Some(key) && i == b.len() - 1 {
                assert(b[i] == s.last());
                assert(s[s.len() - 1] == s.last());
            } else {
                assert(b[i] == bb[i]);
                assert(s.drop_last().contains(bb[i]));
                let w = choose|w: int| 0 <= w < s.drop_last().len() && s.drop_last()[w] == bb[i];
                assert(s[w] == bb[i]);
            }
        }
    }
}

/// One aggregated entry is correct for `prs`: its count is the size of
/// its bucket, and its first and last pull requests are bucket members
/// bounding every bucket member's creation time.
pub open spec fn valid_group(prs: Seq<PrView>, g: CrView) -> bool {
    let b = bucket(prs, g.full_name);
    &&& b.len() >= 1
    &&& g.pr_count == b.len()
    &&& b.contains(g.first_pr)
    &&& b.contains(g.last_pr)
    &&& forall|i: int|
        0 <= i < b.len() ==> g.first_pr.created_at <= #[trigger] b[i].created_at
            <= g.last_pr.created_at
}

/// The total pull-request count across aggregated entries.
pub open spec fn sum_counts(s: Seq<CrView>) -> int
    decreases s.len(),
{
    if s.len() == 0 {
        0
    } else {
        sum_counts(s.drop_last()) + s.last().pr_count
    }
}

proof fn lemma_sum_update(s: Seq<CrView>, j: int, x: CrView)
    requires
        0 <= j < s.len(),
    ensures
        sum_counts(s.update(j, x)) == sum_counts(s) - s[j].pr_count + x.pr_count,
    decreases s.len(),
{
    if j == s.len() - 1 {
        assert(s.update(j, x).drop_last() =~= s.drop_last());
        assert(s.update(j, x).last() == x);
    } else {
        lemma_sum_update(s.drop_last(), j, x);
        assert(s.update(j, x).drop_last() =~= s.drop_last().update(j, x));
        assert(s.update(j, x).last() == s.last());
    }
}

/// Some aggregated entry carries the key.
pub open spec fn has_group_for(gv: Seq<CrView>, key: Seq<char>) -> bool {
    exists|m: int| 0 <= m < gv.len() && (#[trigger] gv[m].full_name) == key
}

/// `gv` is a correct grouping of `pv`: every entry is valid and keys are
/// distinct; every pull request has an entry for its key; the counts sum
/// to the number of pull requests.
pub open spec fn grouping_ok(pv: Seq<PrView>, gv: Seq<CrView>) -> bool {
    &&& forall|i: int| 0 <= i < gv.len() ==> valid_group(pv, #[trigger] gv[i])
    &&& forall|i: int, j: int|
        0 <= i < j < gv.len() ==> (#[trigger] gv[i].full_name) != (#[trigger] gv[j].full_name)
    &&& forall|p: int|
        0 <= p < pv.len() ==> (#[trigger] pr_key(pv[p])) is Some && has_group_for(
            gv,
            pr_key(pv[p]).unwrap(),
        )
    &&& sum_counts(gv) == pv.len()
}

fn find_group(groups: &Vec<ContributedRepo>, k: &String) -> (r: Option<usize>)
    ensures
        match r {
            Some(j) => j < groups@.len() && cr_views(groups@)[j as int].full_name == k@,
            None => forall|m: int|
                0 <= m < groups@.len() ==> (#[trigger] cr_views(groups@)[m].full_name) != k@,
        },
{
    let mut m: usize = 0;
    while m < groups.len()
        invariant
            m <= groups@.len(),
            forall|mm: int| 0 <= mm < m ==> (#[trigger] cr_views(groups@)[mm].full_name) != k@,
        decreases groups@.len() - m,
    {
        if groups[m].full_name == *k {
            return Some(m);
        }
        m = m + 1;
    }
    None
}

/// Groups pull requests by target repository.
///
/// Returns one entry per distinct repository key, each counting its
/// bucket and carrying an earliest and a latest pull request of the
/// bucket.  Returns
/// `StatsError::InvariantViolation` exactly when some URL has fewer than
/// four `/`-separated segments, the structural assumption about the
/// remote API's URL shape.
pub fn group_prs(prs: &Vec<PullRequest>) -> (r: Result<Vec<ContributedRepo>, StatsError>)
    requires
        prs@.len() <= 0xffff_ffff,
    ensures
        match r {
            Ok(groups) => grouping_ok(pr_views(prs@), cr_views(groups@)),
            Err(e) => e == StatsError::InvariantViolation && exists|i: int|
                0 <= i < prs@.len() && (#[trigger] pr_key(pr_views(prs@)[i])) is None,
        },
{
    let ghost pv = pr_views(prs@);
    let mut groups: Vec<ContributedRepo> = Vec::new();
    let mut i: usize = 0;
    proof {
        assert(pv.take(0int) =~= Seq::<PrView>::empty());
        assert(cr_views(groups@) =~= Seq::<CrView>::empty());
    }
    while i < prs.len()
        invariant
            i <= prs@.len(),
            prs@.len() <= 0xffff_ffff,
            pv == pr_views(prs@),
            grouping_ok(pv.take(i as int), cr_views(groups@)),
        decreases prs@.len() - i,
    {
        let ghost gv = cr_views(groups@);
        let ghost prefix = pv.take(i as int);
        proof {
            assert(pv.take(i as int + 1) =~= prefix.push(pv[i as int]));
            assert(pv[i as int].url == prs@[i as int].url@);
        }
        let pr = prs[i].clone();
        let key = match repo_key_of(pr.url.as_str()) {
            Some(k) => k,
            None => {
                return Err(StatsError::InvariantViolation);
            },
        };
        let ghost kv = key@;
        proof {
            assert(pr_key(pv[i as int]) == Some(kv));
        }
        match find_group(&groups, &key) {
            Some(j) => {
                let g = groups.remove(j);
                proof {
                    lemma_bucket_len_le(prefix, kv);
                    assert(g@ == gv[j as int]);
                }
                let count = g.pr_count + 1;
                let first_pr = if pr.created_at < g.first_pr.created_at {
                    pr.clone()
                } else {
                    g.first_pr
                };
                let last_pr = if pr.created_at >= g.last_pr.created_at {
                    pr
                } else {
                    g.last_pr
                };
                let ng = ContributedRepo { full_name: g.full_name, pr_count: count, first_pr, last_pr };
                let ghost ngv = ng@;
                groups.insert(j, ng);
                proof {
                    assert(cr_views(groups@) =~= gv.update(j as int, ngv));
                    let ngroups = cr_views(groups@);
                    lemma_sum_update(gv, j as int, ngv);
                    assert forall|m: int|
                        0 <= m < ngroups.len() implies valid_group(
                        pv.take(i as int + 1),
                        #[trigger] ngroups[m],
                    ) by {
                        lemma_bucket_push(prefix, pv[i as int], gv[m].full_name);
                        lemma_bucket_push(prefix, pv[i as int], kv);
                        if m == j {
                            let b = bucket(prefix, kv);
                            let nb = bucket(pv.take(i as int + 1), kv);
                            assert(nb =~= b.push(pv[i as int]));
                            assert(forall|w: int| 0 <= w < b.len() ==> nb[w] == b[w]);
                            assert(nb[nb.len() - 1] == pv[i as int]);
                            assert(b.contains(gv[j as int].first_pr) ==> nb.contains(
                                gv[j as int].first_pr,
                            ));
                            assert(b.contains(gv[j as int].last_pr) ==> nb.contains(
                                gv[j as int].last_pr,
                            ));
                        } else {
                            assert(ngroups[m] == gv[m]);
                            assert(gv[m].full_name != kv);
                            assert(bucket(pv.take(i as int + 1), gv[m].full_name) == bucket(
                                prefix,
                                gv[m].full_name,
                            ));
                        }
                    }
                    assert forall|p: int|
                        0 <= p < i + 1 implies (#[trigger] pr_key(pv.take(i as int + 1)[p]))
                        is Some && has_group_for(
                        ngroups,
                        pr_key(pv.take(i as int + 1)[p]).unwrap(),
                    ) by {
                        if p < i {
                            assert(pv.take(i as int + 1)[p] == prefix[p]);
                            let kk = pr_key(prefix[p]).unwrap();
                            let w = choose|w: int|
                                0 <= w < gv.len() && (#[trigger] gv[w].full_name) == kk;
                            if w == j {
                                assert(ngroups[j as int].full_name == kk);
                            } else {
                                assert(ngroups[w].full_name == kk);
                            }
                        } else {
                            assert(pv.take(i as int + 1)[p] == pv[i as int]);
                            assert(ngroups[j as int].full_name == kv);
                        }
                    }
                }
            },
            None => {
                let first_pr = pr.clone();
                let ng = ContributedRepo {
                    full_name: key,
                    pr_count: 1,
                    first_pr,
                    last_pr: pr,
                };
                let ghost ngv = ng@;
                proof {
                    // no earlier pull request carries this key, so its
                    // bucket over the prefix is empty
                    lemma_bucket_elems(prefix, kv);
                    if bucket(prefix, kv).len() > 0 {
                        let e = bucket(prefix, kv)[0];
                        assert(prefix.contains(e));
                        let w = choose|w: int| 0 <= w < prefix.len() && prefix[w] == e;
                        assert(pv[w] == prefix[w]);
                        assert(pr_key(pv.take(i as int)[w]) == Some(kv));
                        assert(has_group_for(gv, kv));
                        let m = choose|m: int|
                            0 <= m < gv.len() && (#[trigger] gv[m].full_name) == kv;
                        assert(false);
                    }
                }
                groups.push(ng);
                proof {
                    let ngroups = cr_views(groups@);
                    assert(ngroups =~= gv.push(ngv));
                    assert(sum_counts(ngroups) == sum_counts(gv) + 1) by {
                        assert(ngroups.drop_last() =~= gv);
                        assert(ngroups.last() == ngv);
                    }
                    assert forall|m: int|
                        0 <= m < ngroups.len() implies valid_group(
                        pv.take(i as int + 1),
                        #[trigger] ngroups[m],
                    ) by {
                        lemma_bucket_push(prefix, pv[i as int], ngroups[m].full_name);
                        if m < gv.len() {
                            assert(ngroups[m] == gv[m]);
                            assert(gv[m].full_name != kv) by {
                                assert(valid_group(prefix, gv[m]));
                                lemma_bucket_elems(prefix, gv[m].full_name);
                                if gv[m].full_name == kv {
                                    assert(bucket(prefix, kv).len() >= 1);
                                    assert(false);
                                }
                            }
                            assert(bucket(pv.take(i as int + 1), gv[m].full_name) == bucket(
                                prefix,
                                gv[m].full_name,
                            ));
                        } else {
                            assert(ngroups[m] == ngv);
                            let nb = bucket(pv.take(i as int + 1), kv);
                            assert(nb =~= bucket(prefix, kv).push(pv[i as int]));
                            assert(nb =~= seq![pv[i as int]]);
                            assert(nb[0] == pv[i as int]);
                        }
                    }
                    assert forall|p: int|
                        0 <= p < i + 1 implies (#[trigger] pr_key(pv.take(i as int + 1)[p]))
                        is Some && has_group_for(
                        ngroups,
                        pr_key(pv.take(i as int + 1)[p]).unwrap(),
                    ) by {
                        if p < i {
                            assert(pv.take(i as int + 1)[p] == prefix[p]);
                            let kk = pr_key(prefix[p]).unwrap();
                            let w = choose|w: int|
                                0 <= w < gv.len() && (#[trigger] gv[w].full_name) == kk;
                            assert(ngroups[w].full_name == kk);
                        } else {
                            assert(pv.take(i as int + 1)[p] == pv[i as int]);
                            assert(ngroups[ngroups.len() - 1].full_name == kv);
                        }
                    }
                }
            },
        }
        i = i + 1;
    }
    proof {
        assert(pv.take(prs@.len() as int) =~= pv);
    }
    Ok(groups)
}

/// The composite activity order: more pull requests first, ties broken
/// by the more recent last pull request.
pub open spec fn cr_ge(a: CrView, b: CrView) -> bool {
    a.pr_count > b.pr_count || (a.pr_count == b.pr_count && a.last_pr.created_at
        >= b.last_pr.created_at)
}

/// Non-increasing in the composite key (count, last creation time).
pub open spec fn sorted_contrib_desc(s: Seq<CrView>) -> bool {
    forall|i: int, j: int| 0 <= i < j < s.len() ==> cr_ge(#[trigger] s[i], #[trigger] s[j])
}

/// Sorts `v` by pull-request count descending, ties broken by last
/// pull-request time descending.  Entries equal in both may end up in
/// any order.
fn sort_contrib(v: &mut Vec<ContributedRepo>)
    ensures
        cr_views(final(v)@).to_multiset() == cr_views(old(v)@).to_multiset(),
        sorted_contrib_desc(cr_views(final(v)@)),
        final(v)@.len() == old(v)@.len(),
{
    broadcast use vstd::seq_lib::group_to_multiset_ensures;

    if v.len() <= 1 {
        return ;
    }
    let ghost n = v@.len();
    let mut i: usize = 1;
    while i < v.len()
        invariant
            1 <= i <= n,
            v@.len() == n,
            cr_views(v@).to_multiset() == cr_views(old(v)@).to_multiset(),
            sorted_contrib_desc(cr_views(v@).take(i as int)),
        decreases v.len() - i,
    {
        let ghost before = cr_views(v@);
        let x = v.remove(i);
        let ghost removed = cr_views(v@);
        proof {
            assert(removed =~= before.remove(i as int));
            before.to_multiset_ensures();
            assert(removed.to_multiset() =~= before.to_multiset().remove(x@));
        }
        let mut j: usize = i;
        while j > 0 && (v[j - 1].pr_count < x.pr_count || (v[j - 1].pr_count == x.pr_count
            && v[j - 1].last_pr.created_at < x.last_pr.created_at))
            invariant
                j <= i < v@.len() + 1,
                cr_views(v@) == removed,
                sorted_contrib_desc(removed.take(i as int)),
                forall|k: int| j <= k < i ==> !cr_ge(#[trigger] removed[k], x@),
            decreases j,
        {
            j = j - 1;
        }
        v.insert(j, x);
        proof {
            assert(cr_views(v@) =~= removed.insert(j as int, x@));
            lemma_insert_to_multiset(removed, j as int, x@);
            assert(removed.to_multiset().insert(x@) =~= before.to_multiset());
            let now = cr_views(v@);
            assert forall|a: int, b: int|
                0 <= a < b < i + 1 implies cr_ge(#[trigger] now[a], #[trigger] now[b]) by {
                assert(forall|k: int|
                    0 <= k < i ==> removed[k] == if k < j {
                        now[k]
                    } else {
                        now[k + 1]
                    });
                if j > 0 {
                    assert(cr_ge(removed[j - 1], x@));
                }
            }
            assert(sorted_contrib_desc(now.take(i as int + 1)));
        }
        i = i + 1;
    }
    proof {
        assert(cr_views(v@).take(v@.len() as int) =~= cr_views(v@));
    }
}

/// Groups, sorts and truncates the pull requests a user authored.
///
/// On success the result is a prefix of some arrangement `t` of a
/// correct grouping `g` of the input, `t` sorted by the composite
/// activity key; its length is the number of distinct repositories,
/// bounded by `max_repos` when a cap is given.  The counts of `g` sum to
/// the number of input pull requests.  Returns
/// `StatsError::InvariantViolation` exactly when some URL cannot supply
/// a repository key.
pub fn aggregate_contributed(prs: Vec<PullRequest>, max_repos: Option<usize>) -> (r: Result<
    Vec<ContributedRepo>,
    StatsError,
>)
    requires
        prs@.len() <= 0xffff_ffff,
    ensures
        match r {
            Ok(out) => {
                &&& exists|g: Seq<CrView>, t: Seq<CrView>|
                    #![auto]
                    grouping_ok(pr_views(prs@), g) && sorted_contrib_desc(t) && t.to_multiset()
                        == g.to_multiset() && cr_views(out@) == t.take(out@.len() as int)
                        && out@.len() == capped_len(g.len() as int, max_repos)
                &&& sorted_contrib_desc(cr_views(out@))
                &&& forall|i: int|
                    0 <= i < prs@.len() ==> (#[trigger] pr_key(pr_views(prs@)[i])) is Some
            },
            Err(e) => e == StatsError::InvariantViolation && exists|i: int|
                0 <= i < prs@.len() && (#[trigger] pr_key(pr_views(prs@)[i])) is None,
        },
{
    let mut groups = match group_prs(&prs) {
        Ok(gs) => gs,
        Err(e) => {
            return Err(e);
        },
    };
    let ghost g = cr_views(groups@);
    sort_contrib(&mut groups);
    let ghost t = cr_views(groups@);
    proof {
        g.to_multiset_ensures();
        t.to_multiset_ensures();
    }
    let mut out = groups;
    if let Some(m) = max_repos {
        out.truncate(m);
    }
    proof {
        assert(cr_views(out@) =~= t.take(out@.len() as int));
    }
    Ok(out)
}

} // verus!
