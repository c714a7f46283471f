use rvm::cache::{
    cache_key_sha, cached_versions, find_by_sha, find_by_version_prefix, prune_plan, sha_matches,
    CacheEntry, PruneStep,
};

/// A cache directory entry; `rustc` tells whether its `rustc` binary is present.
fn entry(name: &str, rustc: bool, modified: i128) -> CacheEntry {
    CacheEntry {
        name: Some(name.to_string()),
        is_dir: true,
        has_rustc: rustc,
        modified,
    }
}

/// A cache holding one version directory with its `bin/rustc`.
fn cached_rustc(tag: &str) -> Vec<CacheEntry> {
    vec![entry(tag, true, 0)]
}

// ── sha_matches ───────────────────────────────────────────────────

#[test]
fn sha_matches_identical() {
    assert!(sha_matches("abc1234def", "abc1234def"));
}

#[test]
fn sha_matches_a_prefix_of_b() {
    assert!(sha_matches("abc1234", "abc1234def5678"));
}

#[test]
fn sha_matches_b_prefix_of_a() {
    assert!(sha_matches("abc1234def5678", "abc1234"));
}

#[test]
fn sha_matches_unrelated_returns_false() {
    assert!(!sha_matches("abc1234", "def5678"));
}

#[test]
fn sha_matches_is_symmetric() {
    for (a, b) in [("abc", "abcdef"), ("abc", "abd"), ("", "x"), ("17067e9ac", "17067e9ac")] {
        assert_eq!(sha_matches(a, b), sha_matches(b, a));
    }
}

// ── cache_key_sha ─────────────────────────────────────────────────

#[test]
fn cache_key_sha_present() {
    assert_eq!(cache_key_sha("1.87.0+17067e9ac"), Some("17067e9ac"));
}

#[test]
fn cache_key_sha_absent() {
    assert!(cache_key_sha("1.87.0").is_none());
}

#[test]
fn cache_key_sha_splits_at_first_plus() {
    assert_eq!(cache_key_sha("1.87.0+abc+def"), Some("abc+def"));
    assert_eq!(cache_key_sha("1.87.0+"), Some(""));
}

// ── find_by_version_prefix ────────────────────────────────────────

#[test]
fn find_by_version_prefix_exact() {
    let entries = cached_rustc("1.87.0");
    assert_eq!(
        find_by_version_prefix(&entries, "1.87.0"),
        Some("1.87.0".to_string())
    );
}

#[test]
fn find_by_version_prefix_with_sha_suffix() {
    let entries = cached_rustc("1.87.0+17067e9ac");
    assert_eq!(
        find_by_version_prefix(&entries, "1.87.0"),
        Some("1.87.0+17067e9ac".to_string())
    );
}

#[test]
fn find_by_version_prefix_dot_match() {
    let entries = cached_rustc("1.87.0");
    assert_eq!(
        find_by_version_prefix(&entries, "1.87"),
        Some("1.87.0".to_string())
    );
}

#[test]
fn find_by_version_prefix_no_match() {
    let entries = cached_rustc("1.87.0");
    assert!(find_by_version_prefix(&entries, "1.86.0").is_none());
}

#[test]
fn find_by_version_prefix_requires_binary() {
    let entries = vec![entry("1.87.0", false, 0)];
    assert!(find_by_version_prefix(&entries, "1.87.0").is_none());
}

#[test]
fn find_by_version_prefix_picks_most_recent() {
    let entries = vec![
        entry("1.87.0+aaa", true, 10),
        entry("1.87.1", true, 30),
        entry("1.87.0+bbb", true, 20),
        entry("1.870.0", true, 99),
    ];
    assert_eq!(
        find_by_version_prefix(&entries, "1.87"),
        Some("1.87.1".to_string())
    );
}

#[test]
fn find_by_version_prefix_first_listed_wins_ties() {
    let entries = vec![entry("1.87.0+aaa", true, 5), entry("1.87.0+bbb", true, 5)];
    assert_eq!(
        find_by_version_prefix(&entries, "1.87.0"),
        Some("1.87.0+aaa".to_string())
    );
}

#[test]
fn find_by_version_prefix_skips_files_and_unreadable_names() {
    let mut file = entry("1.87.0", true, 50);
    file.is_dir = false;
    let unreadable = CacheEntry {
        name: None,
        is_dir: true,
        has_rustc: true,
        modified: 60,
    };
    let entries = vec![file, unreadable, entry("1.87.0+abc", true, 1)];
    assert_eq!(
        find_by_version_prefix(&entries, "1.87.0"),
        Some("1.87.0+abc".to_string())
    );
}

// ── find_by_sha ───────────────────────────────────────────────────

#[test]
fn find_by_sha_exact() {
    let entries = cached_rustc("1.87.0+17067e9ac");
    assert_eq!(
        find_by_sha(&entries, "17067e9ac"),
        Some("1.87.0+17067e9ac".to_string())
    );
}

#[test]
fn find_by_sha_input_prefix_of_stored() {
    let entries = cached_rustc("1.87.0+17067e9ac123456");
    assert_eq!(
        find_by_sha(&entries, "17067e9a"),
        Some("1.87.0+17067e9ac123456".to_string())
    );
}

#[test]
fn find_by_sha_stored_prefix_of_input() {
    let entries = cached_rustc("1.87.0+17067e9a");
    assert_eq!(
        find_by_sha(&entries, "17067e9ac123456"),
        Some("1.87.0+17067e9a".to_string())
    );
}

#[test]
fn find_by_sha_no_match() {
    let entries = cached_rustc("1.87.0+17067e9ac");
    assert!(find_by_sha(&entries, "abc99999").is_none());
}

#[test]
fn find_by_sha_ignores_entry_without_sha() {
    let entries = cached_rustc("1.87.0");
    assert!(find_by_sha(&entries, "187000").is_none());
}

#[test]
fn find_by_sha_picks_most_recent() {
    let entries = vec![
        entry("1.87.0+17067e9ac", true, 1),
        entry("1.90.0+17067e9ac", true, 7),
        entry("1.88.0+17067e9ac", true, 3),
    ];
    assert_eq!(
        find_by_sha(&entries, "17067e9"),
        Some("1.90.0+17067e9ac".to_string())
    );
}

// ── cached_versions ───────────────────────────────────────────────

#[test]
fn cached_versions_empty_when_dir_missing() {
    assert_eq!(cached_versions(&Vec::new()), Vec::<String>::new());
}

#[test]
fn cached_versions_sorted_desc() {
    let entries = vec![
        entry("1.85.0", false, 0),
        entry("1.87.0", false, 0),
        entry("1.86.0", false, 0),
    ];
    let versions = cached_versions(&entries);
    assert_eq!(versions[0], "1.87.0");
    assert_eq!(versions, vec!["1.87.0", "1.86.0", "1.85.0"]);
}

#[test]
fn cached_versions_lists_only_named_directories() {
    let mut file = entry("notes.txt", false, 0);
    file.is_dir = false;
    let unreadable = CacheEntry {
        name: None,
        is_dir: true,
        has_rustc: false,
        modified: 0,
    };
    let entries = vec![
        entry("1.9.0", false, 0),
        file,
        unreadable,
        entry("1.10.0", false, 0),
        entry("1.90.0-nightly+abc", false, 0),
    ];
    assert_eq!(
        cached_versions(&entries),
        vec!["1.90.0-nightly+abc", "1.9.0", "1.10.0"]
    );
}

// ── prune ─────────────────────────────────────────────────────────

#[test]
fn prune_removes_inactive_versions() {
    let entries = vec![entry("1.87.0", false, 0), entry("1.86.0", false, 0)];
    let plan = prune_plan(&entries, Some("1.87.0"), false);
    assert_eq!(plan, vec![PruneStep::SkipActive, PruneStep::Remove]);
}

#[test]
fn prune_force_removes_all_versions() {
    let entries = vec![entry("1.87.0", false, 0), entry("1.85.0", false, 0)];
    let plan = prune_plan(&entries, Some("1.87.0"), true);
    assert_eq!(plan, vec![PruneStep::Remove, PruneStep::Remove]);
}

#[test]
fn prune_leaves_files_alone() {
    let mut file = entry("readme", false, 0);
    file.is_dir = false;
    let entries = vec![file, entry("1.86.0", false, 0)];
    let plan = prune_plan(&entries, None, false);
    assert_eq!(plan, vec![PruneStep::Ignore, PruneStep::Remove]);
}

// ── what `r ls` and `r prune` decide ──────────────────────────────

#[test]
fn ls_empty_cache_reports_none() {
    assert!(cached_versions(&Vec::new()).is_empty());
}

#[test]
fn ls_shows_cached_version() {
    let versions = cached_versions(&cached_rustc("1.87.0"));
    assert!(versions.iter().any(|v| v == "1.87.0"));
}

#[test]
fn ls_marks_active_version() {
    let versions = cached_versions(&cached_rustc("1.87.0"));
    let items = rvm::install::picker_items(&versions, Some("1.87.0"));
    assert!(items[0].contains("(active)"));
}

#[test]
fn prune_removes_inactive_keeps_active() {
    let entries = vec![entry("1.86.0", true, 0), entry("1.87.0", true, 0)];
    let plan = prune_plan(&entries, Some("1.87.0"), false);
    assert_eq!(plan[0], PruneStep::Remove, "inactive should be removed");
    assert_eq!(plan[1], PruneStep::SkipActive, "active should be kept");
}

#[test]
fn prune_force_removes_all_including_active() {
    let entries = vec![entry("1.86.0", true, 0), entry("1.87.0", true, 0)];
    let plan = prune_plan(&entries, Some("1.87.0"), true);
    assert_eq!(plan[0], PruneStep::Remove, "inactive should be removed by --force");
    assert_eq!(plan[1], PruneStep::Remove, "active should be removed by --force");
}
