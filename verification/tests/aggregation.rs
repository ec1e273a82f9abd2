use github_contrib_stats::created::aggregate_created;
use github_contrib_stats::types::Repository;

fn repo(name: &str, stars: u32, forks: u32) -> Repository {
    Repository {
        name_with_owner: String::from(name),
        stargazer_count: stars,
        fork_count: forks,
        primary_language: Some(String::from("Rust")),
        is_archived: false,
        created_at: 1_672_531_200_000,
        pushed_at: Some(1_704_067_200_000),
    }
}

#[test]
fn filter_drops_zero_star_zero_fork_entries() {
    let input = vec![
        repo("a/one", 0, 0),
        repo("a/two", 5, 0),
        repo("a/three", 0, 0),
        repo("a/four", 0, 2),
    ];
    let out = aggregate_created(input, None);
    assert_eq!(out.len(), 2);
    for r in &out {
        assert!(r.stargazer_count > 0 || r.fork_count > 0);
    }
}

#[test]
fn sort_is_non_increasing_in_stars() {
    let input = vec![
        repo("a/low", 1, 1),
        repo("a/high", 500, 1),
        repo("a/mid", 42, 1),
        repo("a/top", 9000, 1),
    ];
    let out = aggregate_created(input, None);
    let stars: Vec<u32> = out.iter().map(|r| r.stargazer_count).collect();
    assert_eq!(stars, vec![9000, 500, 42, 1]);
    for w in stars.windows(2) {
        assert!(w[0] >= w[1]);
    }
}

#[test]
fn truncation_keeps_the_highest_starred() {
    let input = vec![
        repo("a/one", 10, 0),
        repo("a/two", 30, 0),
        repo("a/three", 20, 0),
        repo("a/four", 40, 0),
    ];
    let out = aggregate_created(input, Some(2));
    assert_eq!(out.len(), 2);
    assert_eq!(out[0].stargazer_count, 40);
    assert_eq!(out[1].stargazer_count, 30);
}

#[test]
fn truncation_cap_larger_than_list_changes_nothing() {
    let input = vec![repo("a/one", 10, 0), repo("a/two", 30, 0)];
    let out = aggregate_created(input, Some(10));
    assert_eq!(out.len(), 2);
}

#[test]
fn empty_input_yields_empty_output() {
    let out = aggregate_created(Vec::new(), None);
    assert!(out.is_empty());
    let out = aggregate_created(Vec::new(), Some(5));
    assert!(out.is_empty());
}

#[test]
fn all_filtered_yields_empty_output() {
    let input = vec![repo("a/one", 0, 0), repo("a/two", 0, 0)];
    let out = aggregate_created(input, None);
    assert!(out.is_empty());
}

#[test]
fn equal_star_entries_are_all_kept() {
    let input = vec![repo("a/one", 7, 0), repo("a/two", 7, 1), repo("a/three", 7, 2)];
    let out = aggregate_created(input, None);
    assert_eq!(out.len(), 3);
    let mut names: Vec<String> = out.iter().map(|r| r.name_with_owner.clone()).collect();
    names.sort();
    assert_eq!(names, vec!["a/one", "a/three", "a/two"]);
    assert!(out.iter().all(|r| r.stargazer_count == 7));
}

#[test]
fn the_largest_star_count_sorts_first() {
    let input = vec![repo("a/big", u32::MAX, 0), repo("a/small", 1, 0)];
    let out = aggregate_created(input, None);
    assert_eq!(out[0].stargazer_count, u32::MAX);
    assert_eq!(out[1].stargazer_count, 1);
}

#[test]
fn getters_split_owner_and_name() {
    let r = repo("octo/hello-world", 1, 0);
    assert_eq!(r.owner(), "octo");
    assert_eq!(r.name(), "hello-world");
    assert_eq!(r.html_url(), "https://github.com/octo/hello-world");
    assert_eq!(r.language(), "Rust");
}

#[test]
fn language_defaults_when_absent() {
    let mut r = repo("a/b", 1, 0);
    r.primary_language = None;
    assert_eq!(r.language(), "N/A");
}
