use github_contrib_stats::errors::StatsError;
use github_contrib_stats::pagination::{
    ingest_pr_page, ingest_repo_page, plan_page_cursors, CreatedPager, RawPullRequest,
    RawRepository,
};
use github_contrib_stats::types::Repository;

#[test]
fn cursor_plan_encodes_offsets_in_base64() {
    let cursors = plan_page_cursors(0, 250);
    assert_eq!(
        cursors,
        vec![
            String::from("Y3Vyc29yOjA="),
            String::from("Y3Vyc29yOjEwMA=="),
            String::from("Y3Vyc29yOjIwMA=="),
        ]
    );
}

#[test]
fn cursor_plan_starts_at_the_beginning_offset() {
    let cursors = plan_page_cursors(1000, 1250);
    assert_eq!(
        cursors,
        vec![
            String::from("Y3Vyc29yOjEwMDA="),
            String::from("Y3Vyc29yOjExMDA="),
            String::from("Y3Vyc29yOjEyMDA="),
        ]
    );
}

#[test]
fn cursor_plan_is_empty_when_nothing_remains() {
    assert!(plan_page_cursors(1000, 1000).is_empty());
    assert!(plan_page_cursors(1000, 900).is_empty());
    assert!(plan_page_cursors(0, 0).is_empty());
}

#[test]
fn pr_page_ingestion_parses_rfc3339_timestamps() {
    let raw = vec![
        RawPullRequest {
            url: String::from("https://github.com/a/b/pull/1"),
            created_at: String::from("2023-03-15T12:30:45Z"),
        },
        RawPullRequest {
            url: String::from("https://github.com/a/b/pull/2"),
            created_at: String::from("2023-01-01T09:00:00+09:00"),
        },
    ];
    let prs = ingest_pr_page(&raw).unwrap();
    assert_eq!(prs.len(), 2);
    assert_eq!(prs[0].url, "https://github.com/a/b/pull/1");
    assert_eq!(prs[0].created_at, 1_678_883_445_000);
    // nine in the morning at +09:00 is midnight UTC
    assert_eq!(prs[1].created_at, 1_672_531_200_000);
}

#[test]
fn pr_page_ingestion_keeps_subsecond_precision() {
    let raw = vec![
        RawPullRequest {
            url: String::from("https://github.com/a/b/pull/1"),
            created_at: String::from("2023-01-01T00:00:00.500Z"),
        },
        RawPullRequest {
            url: String::from("https://github.com/a/b/pull/2"),
            created_at: String::from("2023-01-01T00:00:00.499Z"),
        },
    ];
    let prs = ingest_pr_page(&raw).unwrap();
    assert_eq!(prs[0].created_at, 1_672_531_200_500);
    assert_eq!(prs[1].created_at, 1_672_531_200_499);
    assert!(prs[1].created_at < prs[0].created_at);
}

#[test]
fn pr_page_ingestion_rejects_malformed_timestamps() {
    let raw = vec![RawPullRequest {
        url: String::from("https://github.com/a/b/pull/1"),
        created_at: String::from("yesterday"),
    }];
    assert_eq!(ingest_pr_page(&raw).unwrap_err(), StatsError::Decode);
}

#[test]
fn repo_page_ingestion_carries_every_field() {
    let raw = vec![RawRepository {
        name_with_owner: String::from("octo/hello"),
        stargazer_count: 7,
        fork_count: 3,
        primary_language: Some(String::from("Go")),
        is_archived: true,
        created_at: String::from("2023-01-01T00:00:00Z"),
        pushed_at: Some(String::from("2024-01-01T00:00:00Z")),
    }];
    let repos = ingest_repo_page(&raw).unwrap();
    assert_eq!(repos.len(), 1);
    let r = &repos[0];
    assert_eq!(r.name_with_owner, "octo/hello");
    assert_eq!(r.stargazer_count, 7);
    assert_eq!(r.fork_count, 3);
    assert_eq!(r.primary_language, Some(String::from("Go")));
    assert!(r.is_archived);
    assert_eq!(r.created_at, 1_672_531_200_000);
    assert_eq!(r.pushed_at, Some(1_704_067_200_000));
}

#[test]
fn repo_page_ingestion_rejects_bad_pushed_at() {
    let raw = vec![RawRepository {
        name_with_owner: String::from("octo/hello"),
        stargazer_count: 0,
        fork_count: 0,
        primary_language: None,
        is_archived: false,
        created_at: String::from("2023-01-01T00:00:00Z"),
        pushed_at: Some(String::from("not a date")),
    }];
    assert_eq!(ingest_repo_page(&raw).unwrap_err(), StatsError::Decode);
}

#[test]
fn created_pager_threads_cursors_and_accumulates() {
    let mut pager = CreatedPager::new();
    assert!(pager.has_next);
    assert!(pager.cursor.is_none());
    assert!(pager.repos.is_empty());

    let page1 = vec![mk_repo("a/x"), mk_repo("a/y")];
    pager.absorb_page(page1, true, Some(String::from("c1")));
    assert!(pager.has_next);
    assert_eq!(pager.cursor, Some(String::from("c1")));
    assert_eq!(pager.repos.len(), 2);

    let page2 = vec![mk_repo("a/z")];
    pager.absorb_page(page2, false, None);
    assert!(!pager.has_next);
    assert!(pager.cursor.is_none());
    assert_eq!(pager.repos.len(), 3);
    assert_eq!(pager.repos[2].name_with_owner, "a/z");
}

fn mk_repo(name: &str) -> Repository {
    Repository {
        name_with_owner: String::from(name),
        stargazer_count: 1,
        fork_count: 0,
        primary_language: None,
        is_archived: false,
        created_at: 0,
        pushed_at: None,
    }
}
