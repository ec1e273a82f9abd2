use github_contrib_stats::partition::Partitioner;
use github_contrib_stats::queries::build_pr_search_query;
use github_contrib_stats::types::PullRequest;

const T_2023_01_01: i64 = 1_672_531_200_000;

fn record(i: u32) -> PullRequest {
    PullRequest {
        url: format!("https://github.com/owner{}/repo{}/pull/{}", i % 7, i % 7, i),
        created_at: T_2023_01_01 - (i as i64) * 1000,
    }
}

/// Hands out the synthetic records older than `cutoff`, newest first,
/// at most `limit` of them.
fn window(all: &[PullRequest], cutoff: Option<i64>, limit: usize) -> Vec<PullRequest> {
    all.iter()
        .filter(|p| match cutoff {
            Some(c) => p.created_at < c,
            None => true,
        })
        .take(limit)
        .cloned()
        .collect()
}

#[test]
fn partitioner_covers_a_total_beyond_the_ceiling_in_three_queries() {
    let all: Vec<PullRequest> = (0..2500).map(record).collect();
    let base = build_pr_search_query("someone");

    let first = window(&all, None, 1000);
    let mut queries_issued = 1;
    let mut p = Partitioner::start(base, 2500, first);

    while let Some(_q) = p.next_window_query() {
        let budget = p.window_budget() as usize;
        let batch = window(&all, Some(p.min_created_at), budget.min(1000));
        queries_issued += 1;
        p.absorb_window(batch);
    }

    assert_eq!(queries_issued, 3);
    assert_eq!(p.collected.len(), 2500);

    let mut urls: Vec<&str> = p.collected.iter().map(|r| r.url.as_str()).collect();
    urls.sort();
    let before = urls.len();
    urls.dedup();
    assert_eq!(urls.len(), before);

    let mut times: Vec<i64> = p.collected.iter().map(|r| r.created_at).collect();
    times.sort();
    let expected: Vec<i64> = (0..2500).rev().map(|i| T_2023_01_01 - i * 1000).collect();
    assert_eq!(times, expected);
}

#[test]
fn first_window_matching_the_total_issues_no_more_queries() {
    let all: Vec<PullRequest> = (0..800).map(record).collect();
    let first = window(&all, None, 1000);
    assert_eq!(first.len(), 800);
    let p = Partitioner::start(build_pr_search_query("someone"), 800, first);
    assert!(p.finished);
    assert!(p.next_window_query().is_none());
    assert_eq!(p.collected.len(), 800);
}

#[test]
fn zero_total_finishes_immediately_with_empty_output() {
    let p = Partitioner::start(build_pr_search_query("someone"), 0, Vec::new());
    assert!(p.finished);
    assert!(p.next_window_query().is_none());
    assert!(p.collected.is_empty());
}

#[test]
fn an_empty_window_converges_even_short_of_the_total() {
    let all: Vec<PullRequest> = (0..1100).map(record).collect();
    let first = window(&all, None, 1000);
    let mut p = Partitioner::start(build_pr_search_query("someone"), 5000, first);
    assert!(!p.finished);
    // the server has only 100 older records; after them comes an empty
    // window, which must end the loop despite the inflated total
    let batch = window(&all, Some(p.min_created_at), 1000);
    assert_eq!(batch.len(), 100);
    p.absorb_window(batch);
    assert!(!p.finished);
    p.absorb_window(Vec::new());
    assert!(p.finished);
    assert!(p.next_window_query().is_none());
    assert_eq!(p.collected.len(), 1100);
}

#[test]
fn window_query_carries_the_exclusive_rfc3339_cutoff() {
    let base = build_pr_search_query("octocat");
    assert_eq!(
        base,
        "author:octocat type:pr is:public sort:created-desc -user:octocat"
    );
    let first = vec![
        PullRequest { url: String::from("https://github.com/a/b/pull/1"), created_at: T_2023_01_01 },
        PullRequest {
            url: String::from("https://github.com/a/b/pull/2"),
            created_at: T_2023_01_01 + 5000,
        },
    ];
    let p = Partitioner::start(base.clone(), 2000, first);
    assert_eq!(p.min_created_at, T_2023_01_01);
    let q = p.next_window_query().unwrap();
    assert_eq!(
        q,
        format!("{} created:<2023-01-01T00:00:00+00:00", base)
    );
}

#[test]
fn window_budget_is_bounded_by_the_ceiling() {
    let all: Vec<PullRequest> = (0..1000).map(record).collect();
    let p = Partitioner::start(build_pr_search_query("x"), 4200, window(&all, None, 1000));
    assert_eq!(p.remaining, 3200);
    assert_eq!(p.window_budget(), 1000);
    let all_small: Vec<PullRequest> = (0..1000).map(record).collect();
    let mut p2 = Partitioner::start(build_pr_search_query("x"), 1300, window(&all_small, None, 1000));
    assert_eq!(p2.window_budget(), 300);
    p2.absorb_window(window(&all_small, Some(p2.min_created_at), 300));
    assert!(p2.finished);
}
