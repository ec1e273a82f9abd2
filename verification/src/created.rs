//! The Repository Aggregator: drops repositories with no stars and no
//! forks, sorts the rest by star count descending, and truncates to an
//! optional cap.

use vstd::prelude::*;

use crate::sequences::lemma_insert_to_multiset;
use crate::types::{repo_views, RepoView, Repository};

verus! {

/// Whether a repository carries any signal: at least one star or fork.
pub open spec fn keep_repo(r: RepoView) -> bool {
    r.stargazer_count > 0 || r.fork_count > 0
}

/// The subsequence of repositories that carry signal, in input order.
pub open spec fn kept_repos(s: Seq<RepoView>) -> Seq<RepoView>
    decreases s.len(),
{
    if s.len() == 0 {
        Seq::<RepoView>::empty()
    } else if keep_repo(s.last()) {
        kept_repos(s.drop_last()).push(s.last())
    } else {
        kept_repos(s.drop_last())
    }
}

/// Every element of the filtered sequence carries signal.
pub proof fn lemma_kept_repos_keep(s: Seq<RepoView>)
    ensures
        forall|i: int| 0 <= i < kept_repos(s).len() ==> keep_repo(#[trigger] kept_repos(s)[i]),
    decreases s.len(),
{
    if s.len() > 0 {
        lemma_kept_repos_keep(s.drop_last());
        let r = kept_repos(s);
        let rr = kept_repos(s.drop_last());
        assert forall|i: int| 0 <= i < r.len() implies keep_repo(r[i]) by {
            if keep_repo(s.last()) {
                if i < r.len() - 1 {
                    assert(r[i] == rr[i]);
                } else {
                    assert(r[i] == s.last());
                }
            } else {
                assert(r[i] == rr[i]);
            }
        }
    }
}

/// Star counts never increase along the sequence.
pub open spec fn sorted_stars_desc(s: Seq<RepoView>) -> bool {
    forall|i: int, j: int|
        0 <= i < j < s.len() ==> #[trigger] s[i].stargazer_count >= #[trigger] s[j].stargazer_count
}

/// How long the aggregated list is: the filtered length, bounded by the
/// cap when one is given.
pub open spec fn capped_len(filtered: int, cap: Option<usize>) -> int {
    match cap {
        Some(m) => if filtered <= m {
            filtered
        } else {
            m as int
        },
        None => filtered,
    }
}

/// Sorts `v` by star count descending.  Entries with equal star counts
/// may end up in any order.
fn sort_repos_by_stars(v: &mut Vec<Repository>)
    ensures
        repo_views(final(v)@).to_multiset() == repo_views(old(v)@).to_multiset(),
        sorted_stars_desc(repo_views(final(v)@)),
        final(v)@.len() == old(v)@.len(),
{
    broadcast use vstd::seq_lib::group_to_multiset_ensures;

    if v.len() <= 1 {
        return ;
    }
    let ghost n = v@.len();
    let mut i: usize = 1;
    while i < v.len()
        invariant
            1 <= i <= n,
            v@.len() == n,
            repo_views(v@).to_multiset() == repo_views(old(v)@).to_multiset(),
            sorted_stars_desc(repo_views(v@).take(i as int)),
        decreases v.len() - i,
    {
        let ghost before = repo_views(v@);
        let x = v.remove(i);
        let ghost removed = repo_views(v@);
        proof {
            assert(removed =~= before.remove(i as int));
            before.to_multiset_ensures();
            assert(removed.to_multiset() =~= before.to_multiset().remove(x@));
        }
        let mut j: usize = i;
        while j > 0 && v[j - 1].stargazer_count < x.stargazer_count
            invariant
                j <= i < v@.len() + 1,
                repo_views(v@) == removed,
                sorted_stars_desc(removed.take(i as int)),
                forall|k: int|
                    j <= k < i ==> #[trigger] removed[k].stargazer_count < x@.stargazer_count,
            decreases j,
        {
            j = j - 1;
        }
        v.insert(j, x);
        proof {
            assert(repo_views(v@) =~= removed.insert(j as int, x@));
            lemma_insert_to_multiset(removed, j as int, x@);
            assert(removed.to_multiset().insert(x@) =~= before.to_multiset());
            let now = repo_views(v@);
            assert forall|a: int, b: int|
                0 <= a < b < i + 1 implies #[trigger] now[a].stargazer_count
                >= #[trigger] now[b].stargazer_count by {
                assert(forall|k: int|
                    0 <= k < i ==> removed[k] == if k < j {
                        now[k]
                    } else {
                        now[k + 1]
                    });
                if j > 0 {
                    assert(removed[j - 1].stargazer_count >= x@.stargazer_count);
                }
            }
            assert(sorted_stars_desc(now.take(i as int + 1)));
        }
        i = i + 1;
    }
    proof {
        if v@.len() > 0 {
            assert(repo_views(v@).take(v@.len() as int) =~= repo_views(v@));
        }
    }
}

/// Filters, sorts and truncates the repositories a user created.
///
/// The result is a prefix of some arrangement `t` of exactly the kept
/// records (star or fork count positive), `t` sorted by star count
/// descending; its length is the number of kept records, bounded by
/// `max_repos` when a cap is given.  An empty input yields an empty
/// output.
pub fn aggregate_created(repos: Vec<Repository>, max_repos: Option<usize>) -> (r: Vec<Repository>)
    ensures
        exists|t: Seq<RepoView>|
            #![auto]
            sorted_stars_desc(t) && t.to_multiset() == kept_repos(repo_views(repos@)).to_multiset()
                && repo_views(r@) == t.take(r@.len() as int),
        r@.len() == capped_len(kept_repos(repo_views(repos@)).len() as int, max_repos),
        sorted_stars_desc(repo_views(r@)),
        forall|i: int| 0 <= i < r@.len() ==> keep_repo(#[trigger] repo_views(r@)[i]),
{
    broadcast use vstd::seq_lib::group_to_multiset_ensures;

    let ghost all = repo_views(repos@);
    let mut kept: Vec<Repository> = Vec::new();
    let mut idx: usize = 0;
    proof {
        assert(all.take(0int) =~= Seq::<RepoView>::empty());
        assert(repo_views(kept@) =~= Seq::<RepoView>::empty());
    }
    while idx < repos.len()
        invariant
            idx <= repos@.len(),
            all == repo_views(repos@),
            repo_views(kept@) == kept_repos(all.take(idx as int)),
        decreases repos@.len() - idx,
    {
        proof {
            assert(all.take(idx as int + 1).drop_last() =~= all.take(idx as int));
            assert(all.take(idx as int + 1).last() == all[idx as int]);
        }
        let c = &repos[idx];
        if c.stargazer_count > 0 || c.fork_count > 0 {
            let cc = c.clone();
            proof {
                assert(repo_views(kept@.push(cc)) =~= repo_views(kept@).push(cc@));
            }
            kept.push(cc);
        }
        idx = idx + 1;
    }
    proof {
        assert(all.take(repos@.len() as int) =~= all);
    }
    sort_repos_by_stars(&mut kept);
    let ghost t = repo_views(kept@);
    proof {
        t.to_multiset_ensures();
        kept_repos(all).to_multiset_ensures();
        assert(t.len() == kept_repos(all).len());
        lemma_kept_repos_keep(all);
        assert forall|i: int| 0 <= i < t.len() implies keep_repo(#[trigger] t[i]) by {
            assert(t.to_multiset().contains(t[i]));
            assert(kept_repos(all).contains(t[i]));
            let w = choose|w: int| 0 <= w < kept_repos(all).len() && kept_repos(all)[w] == t[i];
            assert(keep_repo(kept_repos(all)[w]));
        }
    }
    let mut out = kept;
    if let Some(m) = max_repos {
        out.truncate(m);
    }
    proof {
        assert(repo_views(out@) =~= t.take(out@.len() as int));
    }
    out
}

} // verus!
