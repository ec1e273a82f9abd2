use github_contrib_stats::queries::{build_window_query, QUERY_PRS, QUERY_REPOS};

#[test]
fn repository_query_requests_the_documented_fields() {
    for field in [
        "nameWithOwner",
        "stargazerCount",
        "forkCount",
        "primaryLanguage",
        "isArchived",
        "createdAt",
        "pushedAt",
        "totalCount",
        "hasNextPage",
        "endCursor",
    ] {
        assert!(QUERY_REPOS.contains(field), "missing {}", field);
    }
    assert!(QUERY_REPOS.contains("ownerAffiliations: OWNER"));
    assert!(QUERY_REPOS.contains("isFork: false"));
}

#[test]
fn search_query_requests_the_documented_fields() {
    for field in ["issueCount", "hasNextPage", "endCursor", "url", "createdAt"] {
        assert!(QUERY_PRS.contains(field), "missing {}", field);
    }
    assert!(QUERY_PRS.contains("type: ISSUE"));
    assert!(QUERY_PRS.contains("... on PullRequest"));
}

#[test]
fn window_query_appends_the_cutoff_filter() {
    let q = build_window_query("author:a type:pr", 1_672_531_200_000);
    assert_eq!(q, "author:a type:pr created:<2023-01-01T00:00:00+00:00");
}
