use github_contrib_stats::contributed::{aggregate_contributed, group_prs};
use github_contrib_stats::errors::StatsError;
use github_contrib_stats::text::repo_key_of;
use github_contrib_stats::types::PullRequest;

const T_2023_01_01: i64 = 1_672_531_200_000;
const T_2023_06_01: i64 = 1_685_577_600_000;
const T_2024_01_01: i64 = 1_704_067_200_000;

fn pr(owner: &str, name: &str, number: u32, created_at: i64) -> PullRequest {
    PullRequest {
        url: format!("https://github.com/{}/{}/pull/{}", owner, name, number),
        created_at,
    }
}

#[test]
fn repo_key_reads_the_owner_and_name_segments() {
    assert_eq!(
        repo_key_of("https://github.com/rust-lang/rust/pull/1"),
        Some(String::from("rust-lang/rust"))
    );
    assert_eq!(repo_key_of("a/b/pull/7"), Some(String::from("a/b")));
    assert_eq!(repo_key_of("no-slashes-here"), None);
    assert_eq!(repo_key_of("one/two/three"), None);
}

#[test]
fn grouping_counts_sum_to_input_size() {
    let prs = vec![
        pr("a", "x", 1, T_2023_01_01),
        pr("b", "y", 2, T_2024_01_01),
        pr("a", "x", 3, T_2023_06_01),
        pr("c", "z", 4, T_2023_06_01),
        pr("a", "x", 5, T_2024_01_01),
    ];
    let n = prs.len() as u32;
    let groups = group_prs(&prs).unwrap();
    assert_eq!(groups.len(), 3);
    let total: u32 = groups.iter().map(|g| g.pr_count).sum();
    assert_eq!(total, n);
}

#[test]
fn grouping_tracks_first_and_last_by_creation_time() {
    let prs = vec![
        pr("a", "x", 10, T_2023_06_01),
        pr("a", "x", 11, T_2023_01_01),
        pr("a", "x", 12, T_2024_01_01),
    ];
    let groups = group_prs(&prs).unwrap();
    assert_eq!(groups.len(), 1);
    let g = &groups[0];
    assert_eq!(g.full_name, "a/x");
    assert_eq!(g.pr_count, 3);
    assert_eq!(g.first_pr.created_at, T_2023_01_01);
    assert_eq!(g.first_pr.url, "https://github.com/a/x/pull/11");
    assert_eq!(g.last_pr.created_at, T_2024_01_01);
    assert_eq!(g.last_pr.url, "https://github.com/a/x/pull/12");
}

#[test]
fn malformed_url_fails_fast() {
    let prs = vec![pr("a", "x", 1, T_2023_01_01), PullRequest {
        url: String::from("bogus"),
        created_at: T_2023_01_01,
    }];
    let err = group_prs(&prs).unwrap_err();
    assert_eq!(err, StatsError::InvariantViolation);
    let err = aggregate_contributed(prs, None).unwrap_err();
    assert_eq!(err, StatsError::InvariantViolation);
}

#[test]
fn end_to_end_example_orders_by_count_then_recency() {
    let prs = vec![
        pr("a", "x", 1, T_2023_01_01),
        pr("a", "x", 2, T_2023_06_01),
        pr("b", "y", 3, T_2024_01_01),
    ];
    let out = aggregate_contributed(prs, None).unwrap();
    assert_eq!(out.len(), 2);
    assert_eq!(out[0].full_name, "a/x");
    assert_eq!(out[0].pr_count, 2);
    assert_eq!(out[0].first_pr.created_at, T_2023_01_01);
    assert_eq!(out[0].last_pr.created_at, T_2023_06_01);
    assert_eq!(out[1].full_name, "b/y");
    assert_eq!(out[1].pr_count, 1);
    assert_eq!(out[1].first_pr.created_at, T_2024_01_01);
    assert_eq!(out[1].last_pr.created_at, T_2024_01_01);
}

#[test]
fn equal_counts_tie_break_on_last_pr_recency() {
    let prs = vec![
        pr("old", "p", 1, T_2023_01_01),
        pr("new", "q", 2, T_2024_01_01),
    ];
    let out = aggregate_contributed(prs, None).unwrap();
    assert_eq!(out.len(), 2);
    assert_eq!(out[0].full_name, "new/q");
    assert_eq!(out[1].full_name, "old/p");
    assert!(out[0].pr_count == out[1].pr_count);
}

#[test]
fn composite_sort_is_non_increasing() {
    let prs = vec![
        pr("a", "x", 1, T_2023_01_01),
        pr("a", "x", 2, T_2023_06_01),
        pr("b", "y", 3, T_2023_01_01),
        pr("b", "y", 4, T_2024_01_01),
        pr("c", "z", 5, T_2023_06_01),
    ];
    let out = aggregate_contributed(prs, None).unwrap();
    for w in out.windows(2) {
        let a = (w[0].pr_count, w[0].last_pr.created_at);
        let b = (w[1].pr_count, w[1].last_pr.created_at);
        assert!(a >= b);
    }
}

#[test]
fn contributed_truncation_keeps_the_top() {
    let prs = vec![
        pr("a", "x", 1, T_2023_01_01),
        pr("a", "x", 2, T_2023_06_01),
        pr("a", "x", 3, T_2024_01_01),
        pr("b", "y", 4, T_2023_01_01),
        pr("b", "y", 5, T_2023_06_01),
        pr("c", "z", 6, T_2023_01_01),
    ];
    let out = aggregate_contributed(prs, Some(2)).unwrap();
    assert_eq!(out.len(), 2);
    assert_eq!(out[0].full_name, "a/x");
    assert_eq!(out[1].full_name, "b/y");
}

#[test]
fn empty_pr_list_yields_empty_output() {
    let out = aggregate_contributed(Vec::new(), None).unwrap();
    assert!(out.is_empty());
}
