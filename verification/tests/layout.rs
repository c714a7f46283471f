use rvm::layout::{
    active_marker, active_version, bin_dir, cache_dir, is_cached, prefix, rustc_binary,
    version_dir, which, CacheFailure, FsPath,
};

fn parts(p: &FsPath) -> Vec<&str> {
    p.parts.iter().map(|s| s.as_str()).collect()
}

/// A cache root that does not exist.
fn missing_cache() -> FsPath {
    FsPath::from_root("/nonexistent/rvm-test-cache".to_string())
}

#[test]
fn prefix_respects_env_var() {
    let p = prefix(Some("/opt/r".to_string()), Some("/home/u".to_string()));
    assert_eq!(p.root, "/opt/r");
    assert!(p.parts.is_empty());
}

#[test]
fn prefix_defaults_to_home() {
    let p = prefix(None, Some("/home/u".to_string()));
    assert_eq!(p.root, "/home/u");
    assert_eq!(parts(&p), vec![".r"]);
    let p = prefix(None, None);
    assert_eq!(p.root, "/tmp");
    assert_eq!(parts(&p), vec![".r"]);
}

#[test]
fn bin_dir_is_under_prefix() {
    let p = prefix(Some("/opt/r".to_string()), None);
    let b = bin_dir(&p);
    assert_eq!(b.root, "/opt/r");
    assert_eq!(parts(&b), vec!["bin"]);
    assert_eq!(parts(&active_marker(&p)), vec![".active"]);
}

#[test]
fn cache_dir_respects_env_var() {
    let p = prefix(None, Some("/home/u".to_string()));
    let c = cache_dir(Some("/var/cache/r".to_string()), &p);
    assert_eq!(c.root, "/var/cache/r");
    assert!(c.parts.is_empty());
    let c = cache_dir(None, &p);
    assert_eq!(c.root, "/home/u");
    assert_eq!(parts(&c), vec![".r", "versions"]);
}

#[test]
fn version_dir_is_under_cache_dir() {
    let c = cache_dir(Some("/var/cache/r".to_string()), &prefix(None, None));
    let v = version_dir(&c, "1.87.0");
    assert_eq!(v.root, "/var/cache/r");
    assert_eq!(parts(&v), vec!["1.87.0"]);
}

#[test]
fn rustc_binary_inside_bin_subdir() {
    let c = cache_dir(Some("/c".to_string()), &prefix(None, None));
    assert_eq!(parts(&rustc_binary(&c, "1.87.0", "linux")), vec!["1.87.0", "bin", "rustc"]);
    assert_eq!(
        parts(&rustc_binary(&c, "1.87.0", "windows")),
        vec!["1.87.0", "bin", "rustc.exe"]
    );
}

#[test]
fn is_cached_returns_false_when_missing() {
    assert!(!is_cached(&missing_cache(), "99.0.0", "linux"));
}

#[test]
fn which_errors_when_not_cached() {
    match which(&missing_cache(), "99.0.0", "linux") {
        Err(e) => {
            assert!(matches!(&e, CacheFailure::NotCached(t) if t == "99.0.0"));
            assert_eq!(
                e.message(),
                "Version '99.0.0' is not cached. Run `r 99.0.0` to install it."
            );
        }
        Ok(_) => panic!("expected an error"),
    }
}

#[test]
fn which_fails_when_not_cached() {
    assert!(which(&missing_cache(), "1.87.0", "linux").is_err());
}

#[test]
fn active_version_returns_none_when_marker_missing() {
    assert_eq!(active_version(None), None);
}

#[test]
fn active_version_reads_marker_file() {
    assert_eq!(active_version(Some("1.87.0".to_string())), Some("1.87.0".to_string()));
}

#[test]
fn active_version_trims_whitespace() {
    assert_eq!(
        active_version(Some("1.87.0\n".to_string())),
        Some("1.87.0".to_string())
    );
    assert_eq!(
        active_version(Some(" \t1.87.0 \r\n".to_string())),
        Some("1.87.0".to_string())
    );
}
