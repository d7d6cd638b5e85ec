//! Tests for the maintainer extraction, the collector's decisions, and
//! the download ranking.

use recipe_tracker::analytics::calculate_top_unconverted_feedstocks;
use recipe_tracker::collector::{
    build_feedstock_entry, count_recipe_types, determine_recipe_type_from_node, newly_converted,
};
use recipe_tracker::maintainers::extract_maintainers_from_yaml;
use recipe_tracker::models::{
    CondaForgeYml, FeedstockEntry, FeedstockRecord, NodeAttrsJson, RecipeType,
};

fn entry(recipe_type: RecipeType) -> FeedstockEntry {
    FeedstockEntry {
        recipe_type,
        last_changed: "2023-12-31T00:00:00Z".to_string(),
        attribution: None,
        downloads: None,
        recipe_commit_cache: None,
    }
}

fn record(name: &str, e: FeedstockEntry) -> FeedstockRecord {
    FeedstockRecord { name: name.to_string(), entry: e }
}

#[test]
fn test_extract_maintainers() {
    let yaml = r#"
package:
  name: test

extra:
  recipe-maintainers:
    - user1
    - user2
    - user3
"#;
    let maintainers = extract_maintainers_from_yaml(yaml).unwrap();
    assert_eq!(maintainers, vec!["user1", "user2", "user3"]);
}

#[test]
fn maintainers_section_ends_at_next_top_level_key() {
    let yaml = "extra:\n  recipe-maintainers:\n    - alice\nbuild:\n    - not-a-maintainer\n";
    let maintainers = extract_maintainers_from_yaml(yaml).unwrap();
    assert_eq!(maintainers, vec!["alice"]);
}

#[test]
fn maintainers_outside_extra_are_ignored() {
    let yaml = "other:\n  recipe-maintainers:\n    - bob\n";
    let maintainers = extract_maintainers_from_yaml(yaml).unwrap();
    assert!(maintainers.is_empty());

    assert!(extract_maintainers_from_yaml("").unwrap().is_empty());
}

#[test]
fn maintainer_list_markers_and_empty_items_are_handled() {
    // Repeated list markers are all stripped; an empty item
    // contributes nothing.
    let yaml = "extra:\n  recipe-maintainers:\n    - - erin\n    - \n    - frank\n";
    let maintainers = extract_maintainers_from_yaml(yaml).unwrap();
    assert_eq!(maintainers, vec!["erin", "frank"]);
}

#[test]
fn maintainers_with_windows_line_endings_parse_too() {
    let yaml = "extra:\r\n  recipe-maintainers:\r\n    - carol\r\n    - dave\r\n";
    let maintainers = extract_maintainers_from_yaml(yaml).unwrap();
    assert_eq!(maintainers, vec!["carol", "dave"]);
}

#[test]
fn rattler_build_tool_means_recipe_v1() {
    let node = NodeAttrsJson {
        feedstock_name: "zlib".to_string(),
        conda_forge_yml: Some(CondaForgeYml {
            conda_build_tool: Some("rattler-build".to_string()),
        }),
    };
    assert_eq!(determine_recipe_type_from_node(&node), RecipeType::RecipeV1);

    let legacy = NodeAttrsJson {
        feedstock_name: "zlib".to_string(),
        conda_forge_yml: Some(CondaForgeYml {
            conda_build_tool: Some("conda-build".to_string()),
        }),
    };
    assert_eq!(determine_recipe_type_from_node(&legacy), RecipeType::MetaYaml);

    let unset = NodeAttrsJson {
        feedstock_name: "zlib".to_string(),
        conda_forge_yml: Some(CondaForgeYml { conda_build_tool: None }),
    };
    assert_eq!(determine_recipe_type_from_node(&unset), RecipeType::MetaYaml);

    let missing = NodeAttrsJson { feedstock_name: "zlib".to_string(), conda_forge_yml: None };
    assert_eq!(determine_recipe_type_from_node(&missing), RecipeType::MetaYaml);
}

#[test]
fn timestamps_update_only_on_conversion() {
    let now = "2024-06-01T00:00:00Z";

    // New feedstock: current timestamp.
    let fresh = build_feedstock_entry(None, RecipeType::MetaYaml, now, None);
    assert_eq!(fresh.last_changed, now);

    // Known feedstock, no conversion: previous timestamp kept.
    let old = entry(RecipeType::MetaYaml);
    let kept = build_feedstock_entry(Some(&old), RecipeType::MetaYaml, now, Some(5));
    assert_eq!(kept.last_changed, "2023-12-31T00:00:00Z");
    assert_eq!(kept.downloads, Some(5));

    // Known feedstock converted to Recipe v1: current timestamp.
    let converted = build_feedstock_entry(Some(&old), RecipeType::RecipeV1, now, None);
    assert_eq!(converted.last_changed, now);

    // Already Recipe v1: previous timestamp kept.
    let old_v1 = entry(RecipeType::RecipeV1);
    let stable = build_feedstock_entry(Some(&old_v1), RecipeType::RecipeV1, now, None);
    assert_eq!(stable.last_changed, "2023-12-31T00:00:00Z");
}

#[test]
fn collector_rebuild_preserves_recipe_commit_cache() {
    // The cached lookup outcome survives a collector pass: only the
    // explicit refetch directive clears it.
    let mut old = entry(RecipeType::RecipeV1);
    old.recipe_commit_cache = Some(recipe_tracker::models::RecipeCommitCache {
        sha: "cached-sha".to_string(),
        message: "Add recipe.yaml".to_string(),
        date: "2024-03-03T00:00:00Z".to_string(),
        author_login: Some("alice".to_string()),
        author_name: "Alice".to_string(),
        author_email: "alice@example.com".to_string(),
    });
    let rebuilt =
        build_feedstock_entry(Some(&old), RecipeType::RecipeV1, "2024-06-01T00:00:00Z", None);
    let cache = rebuilt.recipe_commit_cache.expect("the cache must survive the rebuild");
    assert_eq!(cache.sha, "cached-sha");
    assert_eq!(cache.message, "Add recipe.yaml");
    assert_eq!(cache.author_login, Some("alice".to_string()));

    // A feedstock with no prior entry starts without a cache.
    let fresh = build_feedstock_entry(None, RecipeType::MetaYaml, "2024-06-01T00:00:00Z", None);
    assert!(fresh.recipe_commit_cache.is_none());
}

#[test]
fn recipe_type_counts_add_up() {
    let records = vec![
        record("a", entry(RecipeType::RecipeV1)),
        record("b", entry(RecipeType::MetaYaml)),
        record("c", entry(RecipeType::MetaYaml)),
        record("d", entry(RecipeType::Unknown)),
    ];
    assert_eq!(count_recipe_types(&records), (1, 2, 1));
}

#[test]
fn newly_converted_feedstocks_are_listed() {
    let old_records = vec![
        record("a", entry(RecipeType::MetaYaml)),
        record("b", entry(RecipeType::RecipeV1)),
    ];
    let new_records = vec![
        record("a", entry(RecipeType::RecipeV1)),
        record("b", entry(RecipeType::RecipeV1)),
        record("c", entry(RecipeType::RecipeV1)),
        record("d", entry(RecipeType::MetaYaml)),
    ];
    assert_eq!(
        newly_converted(&old_records, &new_records),
        vec!["a".to_string(), "c".to_string()]
    );
}

#[test]
fn top_unconverted_ranking_orders_by_downloads() {
    let records = vec![
        record("low-feedstock", entry(RecipeType::MetaYaml)),
        record("converted-feedstock", entry(RecipeType::RecipeV1)),
        record("high-feedstock", entry(RecipeType::MetaYaml)),
        record("mid-feedstock", entry(RecipeType::Unknown)),
        record("uncounted-feedstock", entry(RecipeType::MetaYaml)),
    ];
    let counts = vec![
        ("low-feedstock".to_string(), 100u64),
        ("converted-feedstock".to_string(), 9999u64),
        ("high-feedstock".to_string(), 300u64),
        ("mid-feedstock".to_string(), 200u64),
    ];
    let top = calculate_top_unconverted_feedstocks(&records, &counts, 2);
    assert_eq!(top.len(), 2);
    assert_eq!(top[0].name, "high-feedstock");
    assert_eq!(top[0].downloads, 300);
    assert_eq!(top[1].name, "mid-feedstock");
    assert_eq!(top[1].downloads, 200);

    let all = calculate_top_unconverted_feedstocks(&records, &counts, 50);
    assert_eq!(all.len(), 3);
    assert_eq!(all[2].name, "low-feedstock");
}
