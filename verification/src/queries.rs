//! The query texts sent to the remote API, reproduced verbatim, and the
//! verified builders for the search strings the partitioner varies.

use vstd::prelude::*;
use vstd::string::StringExecFns;

use crate::outside::rfc3339_of;

verus! {

/// The GraphQL document listing the repositories a user owns
/// (non-forks only), one page at a time.
pub const QUERY_REPOS: &'static str = "\
query ($username: String!, $perPage: Int!, $after: String) {
  user(login: $username) {
    repositories(
      ownerAffiliations: OWNER
      isFork: false
      first: $perPage
      after: $after
    ) {
      totalCount
      pageInfo {
        hasNextPage
        endCursor
      }
      edges {
        node {
          nameWithOwner
          stargazerCount
          forkCount
          primaryLanguage {
            name
          }
          isArchived
          createdAt
          pushedAt
        }
      }
    }
  }
}
";

/// The GraphQL document searching the user's pull requests, one page at
/// a time.
pub const QUERY_PRS: &'static str = "\
query ($q: String!, $perPage: Int!, $cursor: String) {
  search(type: ISSUE, query: $q, first: $perPage, after: $cursor) {
    pageInfo {
      hasNextPage
      endCursor
    }
    edges {
      node {
        ... on PullRequest {
          url
          createdAt
        }
      }
    }
    issueCount
  }
}";

/// The base search string for a user's public pull requests in other
/// users' repositories, newest first.
pub fn build_pr_search_query(username: &str) -> (q: String)
    ensures
        q@ == "author:"@ + username@ + " type:pr is:public sort:created-desc -user:"@ + username@,
{
    let mut q = "author:".to_owned();
    q.append(username);
    q.append(" type:pr is:public sort:created-desc -user:");
    q.append(username);
    q
}

/// The base search string narrowed to results created strictly before
/// `cutoff`; the bound is exclusive so a window never re-fetches its own
/// oldest record.
pub fn build_window_query(base: &str, cutoff: i64) -> (q: String)
    ensures
        q@ == base@ + " created:<"@ + rfc3339_of(cutoff),
{
    let mut q = base.to_owned();
    q.append(" created:<");
    let text = crate::outside::format_rfc3339_millis(cutoff);
    q.append(text.as_str());
    q
}

} // verus!
