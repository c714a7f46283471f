use rvm::releases::{
    parse_version_sha_from_manifest, releases_url, resolve_from, resolve_tag, tag_from_manifest,
    Channel, GhRelease, ReleaseFailure, TagRequestOf,
};

fn make_release(tag: &str, prerelease: bool) -> GhRelease {
    GhRelease {
        tag_name: tag.to_string(),
        prerelease,
    }
}

fn stable_releases() -> Vec<GhRelease> {
    vec![
        make_release("1.87.0", false),
        make_release("1.86.1", false),
        make_release("1.86.0", false),
        make_release("1.85.0", false),
        make_release("1.85.0-beta.1", true),
    ]
}

#[test]
fn resolve_stable_returns_first_stable() {
    assert_eq!(
        resolve_from("stable", &stable_releases()).unwrap(),
        "1.87.0"
    );
}

#[test]
fn resolve_latest_returns_nightly() {
    assert_eq!(
        resolve_from("latest", &stable_releases()).unwrap(),
        "nightly"
    );
}

#[test]
fn resolve_lts_returns_first_stable() {
    assert_eq!(resolve_from("lts", &stable_releases()).unwrap(), "1.87.0");
}

#[test]
fn resolve_nightly_alias() {
    assert_eq!(
        resolve_from("nightly", &stable_releases()).unwrap(),
        "nightly"
    );
}

#[test]
fn resolve_canary_alias() {
    assert_eq!(
        resolve_from("canary", &stable_releases()).unwrap(),
        "nightly"
    );
}

#[test]
fn resolve_next_alias() {
    assert_eq!(resolve_from("next", &stable_releases()).unwrap(), "nightly");
}

#[test]
fn resolve_edge_alias() {
    assert_eq!(resolve_from("edge", &stable_releases()).unwrap(), "nightly");
}

#[test]
fn resolve_beta_alias() {
    assert_eq!(resolve_from("beta", &stable_releases()).unwrap(), "beta");
}

#[test]
fn resolve_prefix_minor() {
    assert_eq!(resolve_from("1.86", &stable_releases()).unwrap(), "1.86.1");
}

#[test]
fn resolve_prefix_with_v_rejected() {
    assert!(resolve_from("v1.86", &stable_releases()).is_err());
}

#[test]
fn resolve_prefix_with_x_notation() {
    assert_eq!(
        resolve_from("1.86.x", &stable_releases()).unwrap(),
        "1.86.1"
    );
}

#[test]
fn resolve_exact_version() {
    assert_eq!(
        resolve_from("1.87.0", &stable_releases()).unwrap(),
        "1.87.0"
    );
}

#[test]
fn resolve_exact_version_with_v_rejected() {
    assert!(resolve_from("v1.87.0", &stable_releases()).is_err());
}

#[test]
fn resolve_current_returns_stable() {
    assert_eq!(
        resolve_from("current", &stable_releases()).unwrap(),
        "1.87.0"
    );
}

#[test]
fn resolve_skips_prerelease() {
    assert_eq!(resolve_from("1.85", &stable_releases()).unwrap(), "1.85.0");
}

#[test]
fn resolve_errors_on_unknown() {
    assert!(resolve_from("99", &stable_releases()).is_err());
}

#[test]
fn resolve_errors_on_empty_list() {
    assert!(resolve_from("stable", &[]).is_err());
}

#[test]
fn resolve_errors_name_the_input() {
    match resolve_from(" v1.86 ", &stable_releases()) {
        Err(e) => assert_eq!(e.message(), "No Rust release found matching 'v1.86'"),
        Ok(t) => panic!("unexpected {t}"),
    }
    match resolve_from("99", &stable_releases()) {
        Err(e) => assert_eq!(e.message(), "No stable Rust release found matching '99'"),
        Ok(t) => panic!("unexpected {t}"),
    }
    match resolve_from("", &[make_release("1.0.0-beta", true)]) {
        Err(e) => assert_eq!(e.message(), "No stable Rust release found on GitHub"),
        Ok(t) => panic!("unexpected {t}"),
    }
}

#[test]
fn resolve_trims_input() {
    assert_eq!(resolve_from("  1.86 \n", &stable_releases()).unwrap(), "1.86.1");
    assert_eq!(resolve_from(" \t", &stable_releases()).unwrap(), "1.87.0");
}

#[test]
fn parse_version_sha_nightly() {
    let manifest = r#"[pkg.rust]
version = "1.90.0-nightly (abc1234de 2025-02-01)"
"#;
    let result = parse_version_sha_from_manifest(manifest).unwrap();
    assert_eq!(result.0, "1.90.0-nightly");
    assert_eq!(result.1, "abc1234de");
}

#[test]
fn parse_version_sha_beta() {
    // Mirrors real manifest layout: [pkg.cargo] appears first, [pkg.rust] follows.
    let manifest = r#"[pkg.cargo]
version = "0.97.0-beta.3 (bfa14ef47 2025-01-28)"

[pkg.rust]
version = "1.88.0-beta.3 (def5678ab 2025-01-30)"
"#;
    let result = parse_version_sha_from_manifest(manifest).unwrap();
    assert_eq!(result.0, "1.88.0-beta.3");
    assert_eq!(result.1, "def5678ab");
}

#[test]
fn parse_version_sha_missing() {
    assert!(parse_version_sha_from_manifest("date = \"2025-01-30\"").is_none());
}

#[test]
fn parse_version_sha_ignores_pkg_cargo_section() {
    // A manifest where [pkg.rust] is absent must return None even when
    // [pkg.cargo] has a valid version line.
    let manifest = "[pkg.cargo]\nversion = \"0.97.0-beta.9 (bfa14ef47 2026-05-15)\"\n";
    assert!(parse_version_sha_from_manifest(manifest).is_none());
}

#[test]
fn parse_version_sha_stops_at_next_section() {
    let manifest = "[pkg.rust]\ntarget = \"x\"\n[pkg.rust.target]\nversion = \"1.0.0 (abc 2025)\"\n";
    assert!(parse_version_sha_from_manifest(manifest).is_none());
}

#[test]
fn parse_version_sha_skips_unusable_lines() {
    let manifest = "  [pkg.rust]  \r\nversion = \"1.2.3 (xyz 2025)\"\nversion = \"1.90.0-nightly (abc1234de) 2025\"\r\n";
    let result = parse_version_sha_from_manifest(manifest).unwrap();
    assert_eq!(result.0, "1.90.0-nightly");
    assert_eq!(result.1, "abc1234de");
}

#[test]
fn tag_from_manifest_shortens_hash() {
    let manifest = "[pkg.rust]\nversion = \"1.90.0-nightly (abc1234de56789 2025-02-01)\"\n";
    assert_eq!(
        tag_from_manifest(manifest, Channel::Nightly).unwrap(),
        "1.90.0-nightly+abc1234de"
    );
    let manifest = "[pkg.rust]\nversion = \"1.88.0-beta.3 (def56 2025-01-30)\"\n";
    assert_eq!(
        tag_from_manifest(manifest, Channel::Beta).unwrap(),
        "1.88.0-beta.3+def56"
    );
}

#[test]
fn tag_from_manifest_errors() {
    match tag_from_manifest("nothing here", Channel::Nightly) {
        Err(e) => assert_eq!(
            e.message(),
            "Could not parse version from Rust nightly manifest"
        ),
        Ok(t) => panic!("unexpected {t}"),
    }
    match tag_from_manifest("[pkg.rust]\nversion = \" (abc 2025)\"\n", Channel::Beta) {
        Err(e) => assert_eq!(e.message(), "Empty version or SHA in Rust beta manifest"),
        Ok(t) => panic!("unexpected {t}"),
    }
}

#[test]
fn resolve_tag_requests() {
    assert!(matches!(
        resolve_tag("nightly"),
        TagRequestOf::FromManifest(Channel::Nightly)
    ));
    assert!(matches!(
        resolve_tag(" edge "),
        TagRequestOf::FromManifest(Channel::Nightly)
    ));
    assert!(matches!(
        resolve_tag("beta"),
        TagRequestOf::FromManifest(Channel::Beta)
    ));
    match resolve_tag(" 1.87.0 ") {
        TagRequestOf::Ready(Ok(t)) => assert_eq!(t, "1.87.0"),
        other => panic!("unexpected {other:?}"),
    }
    match resolve_tag("1.87") {
        TagRequestOf::FromReleases(v) => assert_eq!(v, "1.87"),
        other => panic!("unexpected {other:?}"),
    }
    match resolve_tag("stable") {
        TagRequestOf::FromReleases(v) => assert_eq!(v, "stable"),
        other => panic!("unexpected {other:?}"),
    }
    assert!(matches!(
        resolve_tag("v1.87.0"),
        TagRequestOf::Ready(Err(ReleaseFailure::VersionPrefixed(_)))
    ));
}

#[test]
fn releases_url_asks_for_page_size() {
    assert_eq!(
        releases_url(20),
        "https://api.github.com/repos/rust-lang/rust/releases?per_page=20"
    );
    assert_eq!(
        releases_url(100),
        "https://api.github.com/repos/rust-lang/rust/releases?per_page=100"
    );
}
