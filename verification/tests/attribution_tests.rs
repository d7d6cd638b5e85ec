//! Tests for bot detection and the classifier.

use recipe_tracker::attribution::{
    commit_touches_recipe_file, find_conversion_contributor, find_human_pr_contributor,
    is_bot_author, is_bot_username, is_initial_feedstock_commit, process_history_result,
};
use recipe_tracker::models::{
    CommitAuthor, ContributionType, FirstRecipeCommit, PrCommit, PullRequestInfo,
    RecipeHistoryResult,
};

fn commit_by(login: Option<&str>, name: &str, email: &str) -> FirstRecipeCommit {
    FirstRecipeCommit {
        sha: "abc1234".to_string(),
        author: CommitAuthor {
            login: login.map(|l| l.to_string()),
            name: name.to_string(),
            email: email.to_string(),
        },
        date: "2024-05-01T10:00:00Z".to_string(),
        message: "Add recipe.yaml".to_string(),
    }
}

#[test]
fn test_is_bot_author_detects_bots() {
    let bot_author = CommitAuthor {
        login: Some("conda-forge-admin".to_string()),
        name: "Conda Forge Admin".to_string(),
        email: "conda-forge-admin@example.com".to_string(),
    };
    assert!(is_bot_author(&bot_author));

    let bot_author2 = CommitAuthor {
        login: Some("github-actions[bot]".to_string()),
        name: "github-actions[bot]".to_string(),
        email: "41898282+github-actions[bot]@users.noreply.github.com".to_string(),
    };
    assert!(is_bot_author(&bot_author2));
}

#[test]
fn test_is_bot_author_allows_humans() {
    let human_author = CommitAuthor {
        login: Some("johndoe".to_string()),
        name: "John Doe".to_string(),
        email: "john@example.com".to_string(),
    };
    assert!(!is_bot_author(&human_author));
}

#[test]
fn bot_username_matches_known_automation_accounts() {
    assert!(is_bot_username("github-actions[bot]"));
    assert!(is_bot_username("regro-cf-autotick-bot"));
    assert!(is_bot_username("Conda-Forge-Linter"));
    assert!(is_bot_username("dependabot[bot]"));
    assert!(!is_bot_username("alice123"));
    assert!(!is_bot_username("bob"));
    assert!(!is_bot_username(""));
}

#[test]
fn initial_commit_messages_are_recognized() {
    assert!(is_initial_feedstock_commit("Initial feedstock commit [ci skip]"));
    assert!(is_initial_feedstock_commit("initial commit"));
    assert!(is_initial_feedstock_commit("Initial Commit with recipe"));
    assert!(!is_initial_feedstock_commit("Add recipe.yaml"));
    assert!(!is_initial_feedstock_commit("the initial commit came earlier"));
}

#[test]
fn human_pr_author_is_credited_directly() {
    let commit = commit_by(Some("carol"), "Carol", "carol@example.com");
    let pr = PullRequestInfo { number: 34, author: "traversaro".to_string() };
    let contributor = find_conversion_contributor(&commit, Some(&pr), None);
    assert_eq!(contributor, "traversaro");
}

#[test]
fn direct_push_credits_commit_author_login() {
    let commit = commit_by(Some("sebp"), "Sebastian", "sebp@example.com");
    let contributor = find_conversion_contributor(&commit, None, None);
    assert_eq!(contributor, "sebp");
}

#[test]
fn direct_push_without_login_credits_display_name() {
    let commit = commit_by(None, "Sebastian P", "sebp@example.com");
    let contributor = find_conversion_contributor(&commit, None, None);
    assert_eq!(contributor, "Sebastian P");
}

#[test]
fn bot_pr_with_resolved_human_credits_the_human() {
    let commit = commit_by(Some("other"), "Other", "other@example.com");
    let pr = PullRequestInfo { number: 19, author: "regro-cf-autotick-bot".to_string() };
    let human = "wolfv".to_string();
    let contributor = find_conversion_contributor(&commit, Some(&pr), Some(&human));
    assert_eq!(contributor, "wolfv");
}

#[test]
fn bot_pr_without_resolved_human_falls_back_to_commit_author() {
    let commit = commit_by(Some("dana"), "Dana", "dana@example.com");
    let pr = PullRequestInfo { number: 7, author: "github-actions[bot]".to_string() };
    let contributor = find_conversion_contributor(&commit, Some(&pr), None);
    assert_eq!(contributor, "dana");
}

#[test]
fn bot_pr_second_commit_by_human_yields_that_human() {
    // A bot-opened pull request with three commits; only the second
    // touches the recipe file and is authored by a human.
    let commits = vec![
        PrCommit {
            sha: "c1".to_string(),
            author: "regro-cf-autotick-bot".to_string(),
            files_changed: vec!["README.md".to_string()],
        },
        PrCommit {
            sha: "c2".to_string(),
            author: "bob".to_string(),
            files_changed: vec!["recipe/recipe.yaml".to_string()],
        },
        PrCommit {
            sha: "c3".to_string(),
            author: "alice".to_string(),
            files_changed: vec!["azure-pipelines.yml".to_string()],
        },
    ];
    let found = find_human_pr_contributor(&commits);
    assert_eq!(found, Some("bob".to_string()));
}

#[test]
fn bot_authored_recipe_commits_are_skipped() {
    let commits = vec![
        PrCommit {
            sha: "c1".to_string(),
            author: "conda-forge-admin".to_string(),
            files_changed: vec!["recipe.yaml".to_string()],
        },
        PrCommit {
            sha: "c2".to_string(),
            author: "eve".to_string(),
            files_changed: vec!["recipe.yaml".to_string()],
        },
    ];
    assert_eq!(find_human_pr_contributor(&commits), Some("eve".to_string()));

    let only_bots = vec![PrCommit {
        sha: "c1".to_string(),
        author: "conda-forge-admin".to_string(),
        files_changed: vec!["recipe.yaml".to_string()],
    }];
    assert_eq!(find_human_pr_contributor(&only_bots), None);
}

#[test]
fn recipe_file_paths_are_recognized() {
    assert!(commit_touches_recipe_file(&vec!["recipe.yaml".to_string()]));
    assert!(commit_touches_recipe_file(&vec![
        "README.md".to_string(),
        "recipe/recipe.yaml".to_string(),
    ]));
    assert!(!commit_touches_recipe_file(&vec!["recipe/meta.yaml".to_string()]));
    assert!(!commit_touches_recipe_file(&vec![]));
}

#[test]
fn new_feedstock_is_never_classified_a_conversion() {
    let result = RecipeHistoryResult {
        feedstock: "box2d-feedstock".to_string(),
        first_recipe_commit: Some(commit_by(Some("tdejager"), "T", "t@example.com")),
        error: None,
    };
    let maintainers = vec!["tdejager".to_string(), "wolfv".to_string()];
    let attribution =
        process_history_result(&result, true, None, Some(&maintainers), None).unwrap();
    assert_eq!(attribution.contribution_type, ContributionType::NewFeedstock);
    assert_eq!(attribution.contributors, vec!["tdejager", "wolfv"]);
    assert_eq!(attribution.date, "2024-05-01T10:00:00Z");
    assert_eq!(attribution.commit_sha, Some("abc1234".to_string()));
}

#[test]
fn new_feedstock_without_maintainers_credits_unknown() {
    let result = RecipeHistoryResult {
        feedstock: "x-feedstock".to_string(),
        first_recipe_commit: Some(commit_by(None, "N", "n@example.com")),
        error: None,
    };
    let attribution = process_history_result(&result, true, None, None, None).unwrap();
    assert_eq!(attribution.contribution_type, ContributionType::NewFeedstock);
    assert_eq!(attribution.contributors, vec!["unknown"]);

    let empty: Vec<String> = vec![];
    let attribution2 = process_history_result(&result, true, None, Some(&empty), None).unwrap();
    assert_eq!(attribution2.contributors, vec!["unknown"]);
}

#[test]
fn conversion_is_attributed_to_the_conversion_contributor() {
    let result = RecipeHistoryResult {
        feedstock: "urdfdom-feedstock".to_string(),
        first_recipe_commit: Some(commit_by(Some("carol"), "Carol", "carol@example.com")),
        error: None,
    };
    let pr = PullRequestInfo { number: 34, author: "traversaro".to_string() };
    let attribution = process_history_result(&result, false, Some(&pr), None, None).unwrap();
    assert_eq!(attribution.contribution_type, ContributionType::Conversion);
    assert_eq!(attribution.contributors, vec!["traversaro"]);
}

#[test]
fn missing_commit_yields_no_attribution() {
    let result = RecipeHistoryResult {
        feedstock: "gone-feedstock".to_string(),
        first_recipe_commit: None,
        error: Some("Repository not found or no recipe.yaml".to_string()),
    };
    assert!(process_history_result(&result, false, None, None, None).is_none());
    assert!(process_history_result(&result, true, None, None, None).is_none());
}
