//! Tests for the History Client's response handling and the
//! Pagination Resolver.

use recipe_tracker::history::{
    HistoryPage, PaginationNeeded, RepoHistory, extract_first_commit_with_pagination,
    parse_batch_response,
};
use recipe_tracker::models::{CommitAuthor, FirstRecipeCommit};
use recipe_tracker::pagination::{
    FirstCommitPage, FirstCommitSearch, FirstCommitStep, PaginationState, PaginationStep,
    ParentCountNode, find_zero_parent, login_from_noreply_email,
};

fn commit(sha: &str, message: &str) -> FirstRecipeCommit {
    FirstRecipeCommit {
        sha: sha.to_string(),
        author: CommitAuthor {
            login: Some("alice".to_string()),
            name: "Alice".to_string(),
            email: "alice@example.com".to_string(),
        },
        date: "2024-01-02T03:04:05Z".to_string(),
        message: message.to_string(),
    }
}

#[test]
fn single_page_yields_its_last_commit_as_oldest() {
    let page = HistoryPage {
        has_next_page: false,
        end_cursor: None,
        nodes: vec![commit("newest", "latest change"), commit("oldest", "first change")],
    };
    let (found, pagination) =
        extract_first_commit_with_pagination(&page, "recipe.yaml", "x-feedstock").unwrap();
    assert_eq!(found.unwrap().sha, "oldest");
    assert!(pagination.is_none());
}

#[test]
fn overflowing_page_yields_pagination_marker_with_cursor() {
    // A page that reports more history must produce a marker with a
    // non-empty continuation cursor and no commit yet.
    let page = HistoryPage {
        has_next_page: true,
        end_cursor: Some("CURSOR123".to_string()),
        nodes: vec![commit("n1", "m1"), commit("n2", "m2")],
    };
    let (found, pagination) =
        extract_first_commit_with_pagination(&page, "recipe.yaml", "busy-feedstock").unwrap();
    assert!(found.is_none());
    let marker = pagination.unwrap();
    assert!(!marker.cursor.is_empty());
    assert_eq!(marker.cursor, "CURSOR123");
    assert_eq!(marker.feedstock, "busy-feedstock");
    assert_eq!(marker.path, "recipe.yaml");
    assert_eq!(marker.oldest_commit_so_far.sha, "n2");
}

#[test]
fn empty_page_yields_nothing() {
    let page = HistoryPage { has_next_page: false, end_cursor: None, nodes: vec![] };
    assert!(extract_first_commit_with_pagination(&page, "recipe.yaml", "x").is_none());
}

#[test]
fn overflowing_page_without_cursor_yields_nothing() {
    let page = HistoryPage {
        has_next_page: true,
        end_cursor: None,
        nodes: vec![commit("n1", "m1")],
    };
    assert!(extract_first_commit_with_pagination(&page, "recipe.yaml", "x").is_none());
}

#[test]
fn pagination_walk_ends_on_empty_continuation_cursor() {
    let marker = PaginationNeeded {
        feedstock: "f".to_string(),
        path: "recipe.yaml".to_string(),
        cursor: "C1".to_string(),
        oldest_commit_so_far: commit("seed", "m"),
    };
    let state = PaginationState::start(&marker);
    let page = HistoryPage {
        has_next_page: true,
        end_cursor: Some("".to_string()),
        nodes: vec![commit("deeper", "m")],
    };
    match state.absorb_page(Some(&page)) {
        PaginationStep::Done(c) => assert_eq!(c.sha, "deeper"),
        PaginationStep::Continue(_) => panic!("an empty cursor must end the walk"),
    }
}

#[test]
fn missing_repository_gets_error_result() {
    let feedstocks = vec!["gone-feedstock".to_string()];
    let (results, pagination) = parse_batch_response(&feedstocks, vec![None]);
    assert_eq!(results.len(), 1);
    assert_eq!(results[0].feedstock, "gone-feedstock");
    assert!(results[0].first_recipe_commit.is_none());
    assert_eq!(
        results[0].error,
        Some("Repository not found or no recipe.yaml".to_string())
    );
    assert!(pagination.is_empty());
}

#[test]
fn alt_path_is_tried_when_main_path_has_no_history() {
    let repo = RepoHistory {
        history_main: None,
        history_alt: Some(HistoryPage {
            has_next_page: false,
            end_cursor: None,
            nodes: vec![commit("alt1", "in recipe dir")],
        }),
    };
    let feedstocks = vec!["sub-feedstock".to_string()];
    let (results, pagination) = parse_batch_response(&feedstocks, vec![Some(repo)]);
    assert_eq!(results[0].first_recipe_commit.as_ref().unwrap().sha, "alt1");
    assert!(results[0].error.is_none());
    assert!(pagination.is_empty());
}

#[test]
fn pagination_walk_ends_on_last_page() {
    let marker = PaginationNeeded {
        feedstock: "busy-feedstock".to_string(),
        path: "recipe.yaml".to_string(),
        cursor: "C1".to_string(),
        oldest_commit_so_far: commit("page1-last", "m"),
    };
    let state = PaginationState::start(&marker);
    assert!(state.wants_more());
    let last_page = HistoryPage {
        has_next_page: false,
        end_cursor: None,
        nodes: vec![commit("page2-first", "m"), commit("true-oldest", "m")],
    };
    match state.absorb_page(Some(&last_page)) {
        PaginationStep::Done(c) => assert_eq!(c.sha, "true-oldest"),
        PaginationStep::Continue(_) => panic!("walk should have ended"),
    }
}

#[test]
fn pagination_walk_continues_with_new_cursor() {
    let marker = PaginationNeeded {
        feedstock: "busy-feedstock".to_string(),
        path: "recipe.yaml".to_string(),
        cursor: "C1".to_string(),
        oldest_commit_so_far: commit("page1-last", "m"),
    };
    let state = PaginationState::start(&marker);
    let middle_page = HistoryPage {
        has_next_page: true,
        end_cursor: Some("C2".to_string()),
        nodes: vec![commit("a", "m"), commit("b", "m")],
    };
    match state.absorb_page(Some(&middle_page)) {
        PaginationStep::Continue(s) => {
            assert_eq!(s.cursor, "C2");
            assert_eq!(s.oldest.sha, "b");
            assert_eq!(s.pages_done, 1);
            assert!(s.wants_more());
        },
        PaginationStep::Done(_) => panic!("walk should continue"),
    }
}

#[test]
fn pagination_walk_keeps_oldest_on_empty_page_and_missing_history() {
    let marker = PaginationNeeded {
        feedstock: "f".to_string(),
        path: "recipe.yaml".to_string(),
        cursor: "C1".to_string(),
        oldest_commit_so_far: commit("best-so-far", "m"),
    };
    let state = PaginationState::start(&marker);
    match state.absorb_page(None) {
        PaginationStep::Done(c) => assert_eq!(c.sha, "best-so-far"),
        PaginationStep::Continue(_) => panic!("missing history must end the walk"),
    }

    let state2 = PaginationState::start(&marker);
    let empty_page = HistoryPage { has_next_page: false, end_cursor: None, nodes: vec![] };
    match state2.absorb_page(Some(&empty_page)) {
        PaginationStep::Done(c) => assert_eq!(c.sha, "best-so-far"),
        PaginationStep::Continue(_) => panic!("empty final page must end the walk"),
    }
}

#[test]
fn pagination_walk_stops_at_page_ceiling() {
    let marker = PaginationNeeded {
        feedstock: "f".to_string(),
        path: "recipe.yaml".to_string(),
        cursor: "C1".to_string(),
        oldest_commit_so_far: commit("seed", "m"),
    };
    let mut state = PaginationState::start(&marker);
    let mut pages = 0;
    while state.wants_more() {
        pages += 1;
        let page = HistoryPage {
            has_next_page: true,
            end_cursor: Some(format!("C{}", pages + 1)),
            nodes: vec![commit(&format!("sha{}", pages), "m")],
        };
        state = match state.absorb_page(Some(&page)) {
            PaginationStep::Continue(s) => s,
            PaginationStep::Done(_) => panic!("pages keep coming"),
        };
    }
    assert_eq!(pages, 50);
    let oldest = state.into_oldest();
    assert_eq!(oldest.sha, "sha50");
}

#[test]
fn zero_parent_commit_is_found() {
    let nodes = vec![
        ParentCountNode { sha: "head".to_string(), parent_count: 2 },
        ParentCountNode { sha: "mid".to_string(), parent_count: 1 },
        ParentCountNode { sha: "root".to_string(), parent_count: 0 },
    ];
    assert_eq!(find_zero_parent(&nodes), Some("root".to_string()));
    let no_root = vec![ParentCountNode { sha: "a".to_string(), parent_count: 1 }];
    assert_eq!(find_zero_parent(&no_root), None);
}

#[test]
fn first_commit_search_walks_pages() {
    let search = FirstCommitSearch::start();
    let page1 = FirstCommitPage {
        nodes: vec![ParentCountNode { sha: "a".to_string(), parent_count: 1 }],
        has_next_page: true,
        end_cursor: Some("K2".to_string()),
    };
    let search = match search.absorb_page(Some(&page1)) {
        FirstCommitStep::Continue(s) => s,
        _ => panic!("search should continue"),
    };
    assert_eq!(search.cursor, Some("K2".to_string()));
    let page2 = FirstCommitPage {
        nodes: vec![ParentCountNode { sha: "root".to_string(), parent_count: 0 }],
        has_next_page: false,
        end_cursor: None,
    };
    match search.absorb_page(Some(&page2)) {
        FirstCommitStep::Found(sha) => assert_eq!(sha, "root"),
        _ => panic!("the zero-parent commit is on this page"),
    }

    let exhausted = FirstCommitSearch::start();
    let last = FirstCommitPage {
        nodes: vec![ParentCountNode { sha: "x".to_string(), parent_count: 1 }],
        has_next_page: false,
        end_cursor: None,
    };
    assert!(matches!(exhausted.absorb_page(Some(&last)), FirstCommitStep::NotFound));
    let missing = FirstCommitSearch::start();
    assert!(matches!(missing.absorb_page(None), FirstCommitStep::NotFound));
}

#[test]
fn noreply_emails_resolve_to_logins() {
    assert_eq!(
        login_from_noreply_email("41898282+github-actions[bot]@users.noreply.github.com"),
        Some("github-actions[bot]".to_string())
    );
    assert_eq!(
        login_from_noreply_email("alice@users.noreply.github.com"),
        Some("alice".to_string())
    );
    assert_eq!(login_from_noreply_email("bob@gmail.com"), None);
    assert_eq!(login_from_noreply_email("@users.noreply.github.com"), None);
    assert_eq!(login_from_noreply_email("no-at-sign"), None);
    assert_eq!(login_from_noreply_email("123+@users.noreply.github.com"), None);
}
