//! The data model: repositories, pull requests and aggregated
//! contribution records, each with a mathematical view.
//!
//! Timestamps are held as milliseconds since the Unix epoch; the adapters
//! convert RFC 3339 text at the boundary (see the ingestion functions).

use vstd::prelude::*;
use vstd::string::StrSliceExecFns;
use vstd::string::StringExecFns;

use crate::text::first_slash;

verus! {

/// A repository created by the user.
#[derive(Debug)]
pub struct Repository {
    /// The combined `owner/name` identity string.
    pub name_with_owner: String,
    /// The star count.
    pub stargazer_count: u32,
    /// The fork count.
    pub fork_count: u32,
    /// The primary language, if the remote reports one.
    pub primary_language: Option<String>,
    /// Whether the repository is archived.
    pub is_archived: bool,
    /// Creation time, milliseconds since the Unix epoch.
    pub created_at: i64,
    /// Last-pushed time, milliseconds since the Unix epoch, if any.
    pub pushed_at: Option<i64>,
}

/// The mathematical view of a [`Repository`].
pub struct RepoView {
    pub name_with_owner: Seq<char>,
    pub stargazer_count: int,
    pub fork_count: int,
    pub primary_language: Option<Seq<char>>,
    pub is_archived: bool,
    pub created_at: int,
    pub pushed_at: Option<int>,
}

impl View for Repository {
    type V = RepoView;

    open spec fn view(&self) -> RepoView {
        RepoView {
            name_with_owner: self.name_with_owner@,
            stargazer_count: self.stargazer_count as int,
            fork_count: self.fork_count as int,
            primary_language: match self.primary_language {
                Some(l) => Some(l@),
                None => None,
            },
            is_archived: self.is_archived,
            created_at: self.created_at as int,
            pushed_at: match self.pushed_at {
                Some(t) => Some(t as int),
                None => None,
            },
        }
    }
}

impl Clone for Repository {
    fn clone(&self) -> (r: Self)
        ensures
            r@ == self@,
    {
        Repository {
            name_with_owner: self.name_with_owner.clone(),
            stargazer_count: self.stargazer_count,
            fork_count: self.fork_count,
            primary_language: match &self.primary_language {
                Some(l) => Some(l.clone()),
                None => None,
            },
            is_archived: self.is_archived,
            created_at: self.created_at,
            pushed_at: self.pushed_at,
        }
    }
}

impl Repository {
    /// The name part of `owner/name`: everything after the first `/`.
    ///
    /// The identity string is assumed to contain a `/`; the remote API
    /// always reports one.  Callers check before calling.
    pub fn name(&self) -> (r: String)
        requires
            first_slash(self.name_with_owner@) is Some,
        ensures
            r@ == self.name_with_owner@.skip(first_slash(self.name_with_owner@).unwrap() + 1),
    {
        proof {
            crate::text::lemma_first_slash_props(self.name_with_owner@);
        }
        let s = self.name_with_owner.as_str();
        let i = crate::text::find_first_slash(s).unwrap();
        let n = s.unicode_len();
        let part = s.substring_char(i + 1, n);
        proof {
            assert(s@.subrange(i as int + 1, n as int) =~= s@.skip(i as int + 1));
        }
        part.to_owned()
    }

    /// The owner part of `owner/name`: everything before the first `/`.
    pub fn owner(&self) -> (r: String)
        requires
            first_slash(self.name_with_owner@) is Some,
        ensures
            r@ == self.name_with_owner@.take(first_slash(self.name_with_owner@).unwrap()),
    {
        proof {
            crate::text::lemma_first_slash_props(self.name_with_owner@);
        }
        let s = self.name_with_owner.as_str();
        let i = crate::text::find_first_slash(s).unwrap();
        let part = s.substring_char(0, i);
        proof {
            assert(s@.subrange(0int, i as int) =~= s@.take(i as int));
        }
        part.to_owned()
    }

    /// The web address of the repository.
    pub fn html_url(&self) -> (r: String)
        ensures
            r@ == "https://github.com/"@ + self.name_with_owner@,
    {
        let mut u = "https://github.com/".to_owned();
        u.append(self.name_with_owner.as_str());
        u
    }

    /// The primary language, or `N/A` when the remote reports none.
    pub fn language(&self) -> (r: String)
        ensures
            r@ == match self@.primary_language {
                Some(l) => l,
                None => "N/A"@,
            },
    {
        match &self.primary_language {
            Some(l) => l.clone(),
            None => "N/A".to_owned(),
        }
    }
}

/// One pull request authored by the user.
#[derive(Debug)]
pub struct PullRequest {
    /// The canonical URL; its path ends in `/<owner>/<repo>/pull/<number>`.
    pub url: String,
    /// Creation time, milliseconds since the Unix epoch.
    pub created_at: i64,
}

/// The mathematical view of a [`PullRequest`].
pub struct PrView {
    pub url: Seq<char>,
    pub created_at: int,
}

impl View for PullRequest {
    type V = PrView;

    open spec fn view(&self) -> PrView {
        PrView { url: self.url@, created_at: self.created_at as int }
    }
}

impl Clone for PullRequest {
    fn clone(&self) -> (r: Self)
        ensures
            r@ == self@,
    {
        PullRequest { url: self.url.clone(), created_at: self.created_at }
    }
}

/// One repository the user contributed to, aggregated over its pull
/// requests.
#[derive(Debug)]
pub struct ContributedRepo {
    /// The `owner/name` identity string.
    pub full_name: String,
    /// How many pull requests were grouped into this entry.
    pub pr_count: u32,
    /// The earliest pull request of the group.
    pub first_pr: PullRequest,
    /// The latest pull request of the group.
    pub last_pr: PullRequest,
}

/// The mathematical view of a [`ContributedRepo`].
pub struct CrView {
    pub full_name: Seq<char>,
    pub pr_count: int,
    pub first_pr: PrView,
    pub last_pr: PrView,
}

impl View for ContributedRepo {
    type V = CrView;

    open spec fn view(&self) -> CrView {
        CrView {
            full_name: self.full_name@,
            pr_count: self.pr_count as int,
            first_pr: self.first_pr@,
            last_pr: self.last_pr@,
        }
    }
}

impl Clone for ContributedRepo {
    fn clone(&self) -> (r: Self)
        ensures
            r@ == self@,
    {
        ContributedRepo {
            full_name: self.full_name.clone(),
            pr_count: self.pr_count,
            first_pr: self.first_pr.clone(),
            last_pr: self.last_pr.clone(),
        }
    }
}

/// The views of a sequence of repositories.
pub open spec fn repo_views(s: Seq<Repository>) -> Seq<RepoView> {
    s.map_values(|r: Repository| r@)
}

/// The views of a sequence of pull requests.
pub open spec fn pr_views(s: Seq<PullRequest>) -> Seq<PrView> {
    s.map_values(|p: PullRequest| p@)
}

/// The views of a sequence of contribution records.
pub open spec fn cr_views(s: Seq<ContributedRepo>) -> Seq<CrView> {
    s.map_values(|c: ContributedRepo| c@)
}

} // verus!
