//! Tests for query planning: batching, query and URL construction,
//! the retry policy, and token resolution.

use recipe_tracker::query::{
    BATCH_SIZE, MAX_RETRIES, StatusClass, backoff_secs, batch_chunks, build_batch_query,
    build_first_commit_query, build_history_page_query, classify_status, commit_url,
    pr_commits_url, pr_for_commit_url, raw_file_url, resolve_token, retry_allowed, u64_to_string,
};

#[test]
fn numbers_render_in_decimal() {
    assert_eq!(u64_to_string(0), "0");
    assert_eq!(u64_to_string(7), "7");
    assert_eq!(u64_to_string(10), "10");
    assert_eq!(u64_to_string(123), "123");
    assert_eq!(u64_to_string(4294967295), "4294967295");
}

#[test]
fn batches_hold_at_most_fifty_repositories() {
    assert_eq!(BATCH_SIZE, 50);
    let names: Vec<String> = (0..120).map(|i| format!("f{}-feedstock", i)).collect();
    let chunks = batch_chunks(&names);
    assert_eq!(chunks.len(), 3);
    assert_eq!(chunks[0].len(), 50);
    assert_eq!(chunks[1].len(), 50);
    assert_eq!(chunks[2].len(), 20);
    assert_eq!(chunks[0][0], "f0-feedstock");
    assert_eq!(chunks[1][0], "f50-feedstock");
    assert_eq!(chunks[2][19], "f119-feedstock");

    let empty: Vec<String> = vec![];
    assert!(batch_chunks(&empty).is_empty());
}

#[test]
fn batch_query_aliases_each_repository_by_index() {
    let names = vec!["zlib-feedstock".to_string(), "box2d-feedstock".to_string()];
    let q = build_batch_query(&names);
    assert!(q.starts_with("query {"));
    assert!(q.ends_with("\n}"));
    assert!(q.contains("repo0: repository(owner: \"conda-forge\", name: \"zlib-feedstock\")"));
    assert!(q.contains("repo1: repository(owner: \"conda-forge\", name: \"box2d-feedstock\")"));
    assert!(q.contains("historyMain: history(first: 100, path: \"recipe.yaml\")"));
    assert!(q.contains("historyAlt: history(first: 100, path: \"recipe/recipe.yaml\")"));
}

#[test]
fn follow_up_queries_carry_path_and_cursor() {
    let q = build_history_page_query("busy-feedstock", "recipe.yaml", "CURSOR123");
    assert!(q.contains("name: \"busy-feedstock\""));
    assert!(q.contains("path: \"recipe.yaml\""));
    assert!(q.contains("after: \"CURSOR123\""));

    let q0 = build_first_commit_query("x-feedstock", None);
    assert!(q0.contains("history(first: 100)"));
    assert!(q0.contains("parents { totalCount }"));
    let cursor = "K2".to_string();
    let q1 = build_first_commit_query("x-feedstock", Some(&cursor));
    assert!(q1.contains("history(first: 100, after: \"K2\")"));
}

#[test]
fn rest_urls_are_exact() {
    assert_eq!(
        pr_for_commit_url("zlib-feedstock", "abc123"),
        "https://api.github.com/repos/conda-forge/zlib-feedstock/commits/abc123/pulls"
    );
    assert_eq!(
        pr_commits_url("zlib-feedstock", 34),
        "https://api.github.com/repos/conda-forge/zlib-feedstock/pulls/34/commits"
    );
    assert_eq!(
        commit_url("zlib-feedstock", "abc123"),
        "https://api.github.com/repos/conda-forge/zlib-feedstock/commits/abc123"
    );
    assert_eq!(
        raw_file_url("zlib-feedstock", "main", "recipe/recipe.yaml"),
        "https://raw.githubusercontent.com/conda-forge/zlib-feedstock/main/recipe/recipe.yaml"
    );
}

#[test]
fn statuses_classify_for_the_retry_policy() {
    assert_eq!(classify_status(200), StatusClass::Success);
    assert_eq!(classify_status(204), StatusClass::Success);
    assert_eq!(classify_status(500), StatusClass::ServerError);
    assert_eq!(classify_status(503), StatusClass::ServerError);
    assert_eq!(classify_status(401), StatusClass::AuthFailure);
    assert_eq!(classify_status(403), StatusClass::AuthFailure);
    assert_eq!(classify_status(404), StatusClass::OtherFailure);
    assert_eq!(classify_status(302), StatusClass::OtherFailure);
}

#[test]
fn backoff_doubles_from_one_second() {
    assert_eq!(backoff_secs(1), 1);
    assert_eq!(backoff_secs(2), 2);
    assert_eq!(backoff_secs(3), 4);
    assert_eq!(MAX_RETRIES, 3);
    assert!(retry_allowed(0, MAX_RETRIES));
    assert!(retry_allowed(2, MAX_RETRIES));
    assert!(!retry_allowed(3, MAX_RETRIES));
}

#[test]
fn token_resolution_takes_the_first_usable_source() {
    assert_eq!(
        resolve_token(Some("helper-token".to_string()), Some("env1".to_string()), None),
        Some("helper-token".to_string())
    );
    assert_eq!(
        resolve_token(Some("".to_string()), Some("env1".to_string()), None),
        Some("env1".to_string())
    );
    assert_eq!(
        resolve_token(None, Some("".to_string()), Some("env2".to_string())),
        Some("env2".to_string())
    );
    assert_eq!(resolve_token(None, None, None), None);
    assert_eq!(
        resolve_token(Some("".to_string()), Some("".to_string()), Some("".to_string())),
        None
    );
}
