//! Tests for the attribution pass: directives, work-set selection,
//! cache partitioning, checkpointed lookups, and verdict write-back.

use recipe_tracker::models::{
    Attribution, CommitAuthor, ContributionType, FeedstockEntry, FeedstockRecord,
    FirstRecipeCommit, PullRequestInfo, RecipeCommitCache, RecipeHistoryResult, RecipeType,
};
use recipe_tracker::orchestrator::{
    apply_attributions, apply_flags, cached_results, classify_new_feedstocks,
    conversion_commit_requests, bot_pr_requests, find_entry, needs_attribution, partition_cached,
    store_commit_caches,
};

fn entry(recipe_type: RecipeType) -> FeedstockEntry {
    FeedstockEntry {
        recipe_type,
        last_changed: "2024-01-01T00:00:00Z".to_string(),
        attribution: None,
        downloads: None,
        recipe_commit_cache: None,
    }
}

fn record(name: &str, e: FeedstockEntry) -> FeedstockRecord {
    FeedstockRecord { name: name.to_string(), entry: e }
}

fn sample_attribution() -> Attribution {
    Attribution {
        contribution_type: ContributionType::Conversion,
        contributors: vec!["alice".to_string()],
        date: "2024-02-02T00:00:00Z".to_string(),
        commit_sha: Some("fff000".to_string()),
    }
}

fn sample_cache() -> RecipeCommitCache {
    RecipeCommitCache {
        sha: "cache-sha".to_string(),
        message: "Add recipe.yaml".to_string(),
        date: "2024-03-03T00:00:00Z".to_string(),
        author_login: Some("alice".to_string()),
        author_name: "Alice".to_string(),
        author_email: "alice@example.com".to_string(),
    }
}

fn commit(sha: &str, message: &str) -> FirstRecipeCommit {
    FirstRecipeCommit {
        sha: sha.to_string(),
        author: CommitAuthor {
            login: Some("alice".to_string()),
            name: "Alice".to_string(),
            email: "alice@example.com".to_string(),
        },
        date: "2024-01-02T03:04:05Z".to_string(),
        message: message.to_string(),
    }
}

fn result_for(feedstock: &str, c: Option<FirstRecipeCommit>) -> RecipeHistoryResult {
    RecipeHistoryResult {
        feedstock: feedstock.to_string(),
        first_recipe_commit: c,
        error: None,
    }
}

#[test]
fn work_set_holds_unattributed_recipe_v1_only() {
    let mut with_attr = entry(RecipeType::RecipeV1);
    with_attr.attribution = Some(sample_attribution());
    let records = vec![
        record("a-feedstock", entry(RecipeType::RecipeV1)),
        record("b-feedstock", entry(RecipeType::MetaYaml)),
        record("c-feedstock", with_attr),
        record("d-feedstock", entry(RecipeType::RecipeV1)),
    ];
    let needs = needs_attribution(&records);
    assert_eq!(needs, vec!["a-feedstock".to_string(), "d-feedstock".to_string()]);
}

#[test]
fn existing_attribution_is_untouched_without_reattribute() {
    // Re-running the pass with `reattribute` off must leave an already
    // attributed feedstock out of the work set and its attribution
    // unchanged.
    let mut attributed = entry(RecipeType::RecipeV1);
    attributed.attribution = Some(sample_attribution());
    let records = vec![record("done-feedstock", attributed)];
    let records = apply_flags(records, false, false);
    let needs = needs_attribution(&records);
    assert!(needs.is_empty());
    let e = find_entry(&records, "done-feedstock").unwrap();
    let a = e.attribution.as_ref().unwrap();
    assert_eq!(a.contribution_type, ContributionType::Conversion);
    assert_eq!(a.contributors, vec!["alice"]);
    assert_eq!(a.date, "2024-02-02T00:00:00Z");
    assert_eq!(a.commit_sha, Some("fff000".to_string()));
}

#[test]
fn reattribute_clears_recipe_v1_attributions_only() {
    let mut attributed_v1 = entry(RecipeType::RecipeV1);
    attributed_v1.attribution = Some(sample_attribution());
    let mut attributed_meta = entry(RecipeType::MetaYaml);
    attributed_meta.attribution = Some(sample_attribution());
    let records = vec![
        record("v1-feedstock", attributed_v1),
        record("meta-feedstock", attributed_meta),
    ];
    let records = apply_flags(records, true, false);
    assert!(find_entry(&records, "v1-feedstock").unwrap().attribution.is_none());
    assert!(find_entry(&records, "meta-feedstock").unwrap().attribution.is_some());
}

#[test]
fn refetch_clears_cache_and_forces_fresh_query() {
    // `--refetch-recipe-commits` on a feedstock with a cache must clear
    // it and send the feedstock to the fetch list on the next pass.
    let mut cached_entry = entry(RecipeType::RecipeV1);
    cached_entry.recipe_commit_cache = Some(sample_cache());
    let records = vec![record("cached-feedstock", cached_entry)];

    let records = apply_flags(records, false, true);
    assert!(find_entry(&records, "cached-feedstock").unwrap().recipe_commit_cache.is_none());

    let needs = needs_attribution(&records);
    let (cached, fetch) = partition_cached(&records, &needs);
    assert!(cached.is_empty());
    assert_eq!(fetch, vec!["cached-feedstock".to_string()]);
}

#[test]
fn cached_lookup_short_circuits_the_network() {
    // A feedstock with an unexpired cache lands in the cached partition
    // and its result is rebuilt from the cache; a second pass over the
    // same state returns identical commit data.
    let mut cached_entry = entry(RecipeType::RecipeV1);
    cached_entry.recipe_commit_cache = Some(sample_cache());
    let records = vec![
        record("cached-feedstock", cached_entry),
        record("fresh-feedstock", entry(RecipeType::RecipeV1)),
    ];
    let needs = needs_attribution(&records);
    let (cached, fetch) = partition_cached(&records, &needs);
    assert_eq!(cached, vec!["cached-feedstock".to_string()]);
    assert_eq!(fetch, vec!["fresh-feedstock".to_string()]);

    let first = cached_results(&records, &cached);
    assert_eq!(first.len(), 1);
    let c1 = first[0].first_recipe_commit.as_ref().unwrap();
    assert_eq!(c1.sha, "cache-sha");
    assert_eq!(c1.message, "Add recipe.yaml");
    assert_eq!(c1.date, "2024-03-03T00:00:00Z");
    assert_eq!(c1.author.login, Some("alice".to_string()));

    let second = cached_results(&records, &cached);
    let c2 = second[0].first_recipe_commit.as_ref().unwrap();
    assert_eq!(c1.sha, c2.sha);
    assert_eq!(c1.message, c2.message);
    assert_eq!(c1.date, c2.date);
    assert_eq!(c1.author.login, c2.author.login);
    assert_eq!(c1.author.name, c2.author.name);
    assert_eq!(c1.author.email, c2.author.email);
}

#[test]
fn fresh_lookup_outcomes_are_checkpointed() {
    let records = vec![record("a-feedstock", entry(RecipeType::RecipeV1))];
    let results = vec![result_for("a-feedstock", Some(commit("new-sha", "Add recipe.yaml")))];
    let records = store_commit_caches(records, &results);
    let cache = find_entry(&records, "a-feedstock")
        .unwrap()
        .recipe_commit_cache
        .as_ref()
        .unwrap()
        .clone();
    assert_eq!(cache.sha, "new-sha");
    assert_eq!(cache.message, "Add recipe.yaml");
    assert_eq!(cache.author_login, Some("alice".to_string()));
}

#[test]
fn initial_commit_message_marks_new_feedstocks() {
    let results = vec![
        result_for("new-feedstock", Some(commit("s1", "Initial feedstock commit [ci skip]"))),
        result_for("conv-feedstock", Some(commit("s2", "Add recipe.yaml"))),
        result_for("missing-feedstock", None),
    ];
    let new_set = classify_new_feedstocks(&results);
    assert_eq!(new_set, vec!["new-feedstock".to_string()]);

    let requests = conversion_commit_requests(&results, &new_set);
    assert_eq!(requests, vec![("conv-feedstock".to_string(), "s2".to_string())]);
}

#[test]
fn bot_authored_prs_are_collected_for_human_resolution() {
    let pr_map = vec![
        (
            "bot-feedstock".to_string(),
            PullRequestInfo { number: 19, author: "regro-cf-autotick-bot".to_string() },
        ),
        (
            "human-feedstock".to_string(),
            PullRequestInfo { number: 34, author: "traversaro".to_string() },
        ),
    ];
    let bots = bot_pr_requests(&pr_map);
    assert_eq!(bots, vec![("bot-feedstock".to_string(), 19u32)]);
}

#[test]
fn verdicts_are_written_back_and_counted() {
    let records = vec![
        record("conv-feedstock", entry(RecipeType::RecipeV1)),
        record("new-feedstock", entry(RecipeType::RecipeV1)),
        record("pending-feedstock", entry(RecipeType::RecipeV1)),
    ];
    let results = vec![
        result_for("conv-feedstock", Some(commit("s2", "Add recipe.yaml"))),
        result_for("new-feedstock", Some(commit("s1", "Initial feedstock commit"))),
        // a feedstock whose pagination has not resolved yet
        result_for("pending-feedstock", None),
    ];
    let new_set = classify_new_feedstocks(&results);
    let pr_map = vec![(
        "conv-feedstock".to_string(),
        PullRequestInfo { number: 34, author: "traversaro".to_string() },
    )];
    let maintainers_map =
        vec![("new-feedstock".to_string(), vec!["tdejager".to_string()])];
    let bot_contributors: Vec<(String, String)> = vec![];

    let (records, count) = apply_attributions(
        records,
        &results,
        &new_set,
        &pr_map,
        &maintainers_map,
        &bot_contributors,
    );
    assert_eq!(count, 2);

    let conv = find_entry(&records, "conv-feedstock").unwrap().attribution.as_ref().unwrap().clone();
    assert_eq!(conv.contribution_type, ContributionType::Conversion);
    assert_eq!(conv.contributors, vec!["traversaro"]);
    assert_eq!(conv.commit_sha, Some("s2".to_string()));

    let newf = find_entry(&records, "new-feedstock").unwrap().attribution.as_ref().unwrap().clone();
    assert_eq!(newf.contribution_type, ContributionType::NewFeedstock);
    assert_eq!(newf.contributors, vec!["tdejager"]);

    // No attribution is written while pagination is unresolved.
    assert!(find_entry(&records, "pending-feedstock").unwrap().attribution.is_none());
}
