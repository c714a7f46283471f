use rvm::cache::CacheEntry;
use rvm::install::{
    canonical_key, extract_ver_sha, is_alias, is_sha_input, looks_like_version,
    parse_rustc_version, picker_items, single_dir_index, post_resolve_match, pre_resolve_match, progress_percent,
    removal_target, strip_version_tag,
};

fn entry(name: &str, modified: i128) -> CacheEntry {
    CacheEntry {
        name: Some(name.to_string()),
        is_dir: true,
        has_rustc: true,
        modified,
    }
}

// ── is_alias ───────────────────────────────────────────────────

#[test]
fn is_alias_known_aliases() {
    assert!(is_alias("lts"));
    assert!(is_alias("stable"));
    assert!(is_alias("current"));
    assert!(is_alias("latest"));
    assert!(is_alias("canary"));
    assert!(is_alias("nightly"));
    assert!(is_alias("next"));
    assert!(is_alias("edge"));
    assert!(is_alias("beta"));
}

#[test]
fn is_alias_version_not_alias() {
    assert!(!is_alias("1.87.0"));
    assert!(!is_alias("17067e9ac"));
    assert!(!is_alias(""));
}

// ── looks_like_version ──────────────────────────────────────────

#[test]
fn looks_like_version_semver() {
    assert!(looks_like_version("1.87.0"));
    assert!(looks_like_version("1.86.0"));
}

#[test]
fn looks_like_version_x_notation() {
    assert!(looks_like_version("1.x"));
    assert!(looks_like_version("1.87.X"));
}

#[test]
fn looks_like_version_non_versions() {
    assert!(!looks_like_version("stable"));
    assert!(!looks_like_version("v1.2.3"));
    assert!(!looks_like_version("17067e9ac"));
    assert!(!looks_like_version(""));
}

// ── is_sha_input ───────────────────────────────────────────────

#[test]
fn is_sha_input_valid() {
    assert!(is_sha_input("17067e9ac"));
    assert!(is_sha_input("abc1234def5678"));
}

#[test]
fn is_sha_input_too_short() {
    assert!(!is_sha_input("abc123"));
}

#[test]
fn is_sha_input_all_digits_rejected() {
    assert!(!is_sha_input("12345678"));
}

#[test]
fn is_sha_input_non_hex_rejected() {
    assert!(!is_sha_input("abc1234g"));
}

#[test]
fn is_sha_input_length_bounds() {
    assert!(is_sha_input("abcdef1"));
    assert!(is_sha_input(&"a".repeat(40)));
    assert!(!is_sha_input(&"a".repeat(41)));
    assert!(is_sha_input("ABCDEF0"));
}

#[test]
fn version_and_sha_inputs_do_not_overlap() {
    for s in ["1.87.0", "17067e9ac", "1234567", "1.x", "abcdef12", "beta"] {
        assert!(!(looks_like_version(s) && is_sha_input(s)), "{s}");
    }
}

// ── extract_ver_sha ─────────────────────────────────────────────

#[test]
fn extract_ver_sha_with_sha() {
    let (ver, sha) = extract_ver_sha("1.87.0+17067e9ac");
    assert_eq!(ver, "1.87.0");
    assert_eq!(sha, Some("17067e9ac"));
}

#[test]
fn extract_ver_sha_without_sha() {
    let (ver, sha) = extract_ver_sha("1.87.0");
    assert_eq!(ver, "1.87.0");
    assert!(sha.is_none());
}

#[test]
fn extract_ver_sha_strips_nightly_suffix() {
    let (ver, sha) = extract_ver_sha("1.90.0-nightly+17067e9ac");
    assert_eq!(ver, "1.90.0");
    assert_eq!(sha, Some("17067e9ac"));
}

#[test]
fn extract_ver_sha_nightly_no_sha() {
    let (ver, sha) = extract_ver_sha("1.90.0-nightly");
    assert_eq!(ver, "1.90.0");
    assert!(sha.is_none());
}

#[test]
fn extract_ver_sha_strips_beta_suffix() {
    let (ver, sha) = extract_ver_sha("1.90.0-beta.3+17067e9ac");
    assert_eq!(ver, "1.90.0");
    assert_eq!(sha, Some("17067e9ac"));
}

// ── strip_version_tag ──────────────────────────────────────────

#[test]
fn strip_version_tag_strips_name_prefix() {
    assert_eq!(strip_version_tag("r-v0.5.0", "r"), "0.5.0");
}

#[test]
fn strip_version_tag_strips_bare_v_prefix() {
    assert_eq!(strip_version_tag("v0.5.0", "r"), "0.5.0");
}

#[test]
fn strip_version_tag_bare_version_unchanged() {
    assert_eq!(strip_version_tag("0.5.0", "r"), "0.5.0");
}

#[test]
fn strip_version_tag_repeated_prefixes() {
    assert_eq!(strip_version_tag("r-vr-vvv1.0", "r"), "1.0");
}

// ── rustc --version and cache keys ─────────────────────────────

#[test]
fn parse_rustc_version_stable() {
    let (ver, sha) = parse_rustc_version("rustc 1.87.0 (17067e9ac 2025-01-13)\n");
    assert_eq!(ver, "1.87.0");
    assert_eq!(sha.as_deref(), Some("17067e9ac"));
}

#[test]
fn parse_rustc_version_nightly_long_hash() {
    let (ver, sha) = parse_rustc_version("rustc 1.90.0-nightly (abc1234de56 2025-02-01)");
    assert_eq!(ver, "1.90.0");
    assert_eq!(sha.as_deref(), Some("abc1234de"));
}

#[test]
fn parse_rustc_version_without_hash() {
    let (ver, sha) = parse_rustc_version("rustc 1.87.0");
    assert_eq!(ver, "1.87.0");
    assert!(sha.is_none());
    let (ver, sha) = parse_rustc_version("rustc 1.87.0 (not-hex)");
    assert_eq!(ver, "1.87.0");
    assert!(sha.is_none());
    let (ver, sha) = parse_rustc_version("");
    assert_eq!(ver, "");
    assert!(sha.is_none());
}

#[test]
fn canonical_key_forms() {
    assert_eq!(canonical_key("1.87.0", None), "1.87.0");
    assert_eq!(
        canonical_key("1.87.0", Some(("1.87.0".to_string(), Some("17067e9ac".to_string())))),
        "1.87.0+17067e9ac"
    );
    assert_eq!(
        canonical_key("1.90.0-nightly+abc", Some(("1.90.0".to_string(), None))),
        "1.90.0"
    );
}

#[test]
fn canonical_key_reads_back() {
    let key = canonical_key("tag", Some(("1.88.0".to_string(), Some("def5678ab".to_string()))));
    let (ver, sha) = extract_ver_sha(&key);
    assert_eq!(ver, "1.88.0");
    assert_eq!(sha, Some("def5678ab"));
}

// ── choosing cached versions ───────────────────────────────────

#[test]
fn pre_resolve_match_by_sha_and_version() {
    let entries = vec![entry("1.87.0+17067e9ac", 1), entry("1.86.0", 2)];
    assert_eq!(
        pre_resolve_match("17067e9ac", &entries),
        Some("1.87.0+17067e9ac".to_string())
    );
    assert_eq!(pre_resolve_match("1.86.x", &entries), Some("1.86.0".to_string()));
    assert_eq!(pre_resolve_match("stable", &entries), None);
    assert_eq!(pre_resolve_match("1.85", &entries), None);
}

#[test]
fn post_resolve_match_checks_sha() {
    let entries = vec![entry("1.90.0+abc1234de", 1)];
    assert_eq!(
        post_resolve_match("1.90.0-nightly+abc1234de", &entries),
        Some("1.90.0+abc1234de".to_string())
    );
    assert_eq!(post_resolve_match("1.90.0-nightly+fff0000aa", &entries), None);
    assert_eq!(
        post_resolve_match("1.90.0", &entries),
        Some("1.90.0+abc1234de".to_string())
    );
    let plain = vec![entry("1.90.0", 1)];
    assert_eq!(post_resolve_match("1.90.0-nightly+abc1234de", &plain), None);
}

#[test]
fn removal_target_choices() {
    let entries = vec![entry("1.87.0+17067e9ac", 1), entry("1.86.0", 2)];
    assert_eq!(
        removal_target("1.86.0", true, &entries),
        Some("1.86.0".to_string())
    );
    assert_eq!(
        removal_target("17067e9ac", false, &entries),
        Some("1.87.0+17067e9ac".to_string())
    );
    assert_eq!(
        removal_target("1.87", false, &entries),
        Some("1.87.0+17067e9ac".to_string())
    );
    assert_eq!(removal_target("1.85", false, &entries), None);
}

#[test]
fn picker_items_mark_active() {
    let versions = vec!["1.87.0".to_string(), "1.86.0".to_string()];
    assert_eq!(
        picker_items(&versions, Some("1.86.0")),
        vec!["1.87.0".to_string(), "1.86.0  (active)".to_string()]
    );
    assert_eq!(picker_items(&versions, None), versions);
}

#[test]
fn progress_percent_values() {
    assert_eq!(progress_percent(50, 200), Some(25));
    assert_eq!(progress_percent(200, 200), Some(100));
    assert_eq!(progress_percent(5, 0), None);
    assert_eq!(progress_percent(u64::MAX, u64::MAX), Some(1));
}

#[test]
fn single_dir_index_needs_exactly_one_directory() {
    assert_eq!(single_dir_index(&vec![false, true, false]), Ok(1));
    assert_eq!(single_dir_index(&vec![true, true]), Err(2));
    assert_eq!(single_dir_index(&vec![]), Err(0));
    assert_eq!(single_dir_index(&vec![false]), Err(0));
}

// The archive directory listings below are given as one flag per entry:
// whether that entry is a directory.

#[test]
fn find_single_dir_returns_the_dir() {
    let names = vec!["rust-1.87.0-x86_64-unknown-linux-gnu"];
    let is_dir = vec![true];
    let i = single_dir_index(&is_dir).unwrap();
    assert_eq!(names[i], "rust-1.87.0-x86_64-unknown-linux-gnu");
}

#[test]
fn find_single_dir_errors_on_multiple() {
    assert!(single_dir_index(&vec![true, true]).is_err());
}

#[test]
fn find_single_dir_errors_on_empty() {
    assert!(single_dir_index(&vec![]).is_err());
}
