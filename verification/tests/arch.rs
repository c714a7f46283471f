use rvm::platform::{download_url, self_artifact, target};

const KNOWN: [&str; 6] = [
    "x86_64-unknown-linux-gnu",
    "aarch64-unknown-linux-gnu",
    "x86_64-apple-darwin",
    "aarch64-apple-darwin",
    "x86_64-pc-windows-msvc",
    "aarch64-pc-windows-msvc",
];

/// The platforms (as `std::env::consts` names them) that toolchains are published for.
const PLATFORMS: [(&str, &str); 6] = [
    ("linux", "x86_64"),
    ("linux", "aarch64"),
    ("macos", "x86_64"),
    ("macos", "aarch64"),
    ("windows", "x86_64"),
    ("windows", "aarch64"),
];

/// The target triple of every supported platform; the host is one of them.
fn targets() -> Vec<&'static str> {
    PLATFORMS.iter().map(|(os, arch)| target(os, arch)).collect()
}

#[test]
fn target_is_non_empty() {
    for t in targets() {
        assert!(!t.is_empty());
    }
}

#[test]
fn target_contains_dash() {
    for t in targets() {
        assert!(t.contains('-'));
    }
}

#[test]
fn target_is_known_triple() {
    for t in targets() {
        assert!(KNOWN.contains(&t), "unexpected target: {}", t);
    }
}

#[test]
fn download_url_stable_contains_version() {
    for t in targets() {
        let url = download_url("1.87.0", t);
        assert!(url.contains("1.87.0"), "url: {url}");
    }
}

#[test]
fn download_url_stable_starts_with_rust_lang() {
    for t in targets() {
        let url = download_url("1.87.0", t);
        assert!(
            url.starts_with("https://static.rust-lang.org/dist/rust-"),
            "url: {url}"
        );
    }
}

#[test]
fn download_url_stable_ends_with_tar_gz() {
    for t in targets() {
        let url = download_url("1.87.0", t);
        assert!(url.ends_with(".tar.gz"), "url: {url}");
    }
}

#[test]
fn download_url_nightly_uses_nightly_slug() {
    for t in targets() {
        let url = download_url("nightly-2024-11-15", t);
        assert!(url.contains("rust-nightly-"), "url: {url}");
        assert!(
            !url.contains("nightly-2024"),
            "url should not embed date: {url}"
        );
    }
}

#[test]
fn download_url_beta_uses_beta_slug() {
    for t in targets() {
        let url = download_url("beta", t);
        assert!(url.contains("rust-beta-"), "url: {url}");
    }
}

#[test]
fn download_url_contains_target() {
    for t in targets() {
        let url = download_url("1.87.0", t);
        assert!(url.contains(t), "url: {url}");
    }
}

#[test]
fn target_of_each_platform() {
    assert_eq!(target("linux", "x86_64"), "x86_64-unknown-linux-gnu");
    assert_eq!(target("linux", "aarch64"), "aarch64-unknown-linux-gnu");
    assert_eq!(target("macos", "x86_64"), "x86_64-apple-darwin");
    assert_eq!(target("macos", "aarch64"), "aarch64-apple-darwin");
    assert_eq!(target("windows", "x86_64"), "x86_64-pc-windows-msvc");
    assert_eq!(target("windows", "aarch64"), "aarch64-pc-windows-msvc");
}

#[test]
fn target_falls_back_to_linux_x86_64() {
    assert_eq!(target("freebsd", "x86_64"), "x86_64-unknown-linux-gnu");
    assert_eq!(target("linux", "riscv64"), "x86_64-unknown-linux-gnu");
    for os in ["linux", "macos", "windows", "freebsd", ""] {
        for arch in ["x86_64", "aarch64", "arm", ""] {
            assert!(KNOWN.contains(&target(os, arch)));
        }
    }
}

#[test]
fn download_url_exact_values() {
    assert_eq!(
        download_url("1.87.0", "x86_64-unknown-linux-gnu"),
        "https://static.rust-lang.org/dist/rust-1.87.0-x86_64-unknown-linux-gnu.tar.gz"
    );
    assert_eq!(
        download_url("nightly-2024-11-15", "aarch64-apple-darwin"),
        "https://static.rust-lang.org/dist/rust-nightly-aarch64-apple-darwin.tar.gz"
    );
    assert_eq!(
        download_url("beta.3", "x86_64-pc-windows-msvc"),
        "https://static.rust-lang.org/dist/rust-beta-x86_64-pc-windows-msvc.tar.gz"
    );
}

#[test]
fn download_url_manifest_tags_use_channel_slug() {
    for t in targets() {
        assert_eq!(
            download_url("1.90.0-nightly+abc1234de", t),
            format!("https://static.rust-lang.org/dist/rust-nightly-{t}.tar.gz")
        );
        assert_eq!(
            download_url("1.88.0-beta.3+def5678ab", t),
            format!("https://static.rust-lang.org/dist/rust-beta-{t}.tar.gz")
        );
    }
    // A tag that only mentions a channel without the `-` stays a release tag.
    assert_eq!(
        download_url("1.88.0+betaabc", "x86_64-unknown-linux-gnu"),
        "https://static.rust-lang.org/dist/rust-1.88.0+betaabc-x86_64-unknown-linux-gnu.tar.gz"
    );
}

#[test]
fn self_artifact_names() {
    assert_eq!(self_artifact("r", "linux", "x86_64"), "r-linux-x64");
    assert_eq!(self_artifact("r", "linux", "aarch64"), "r-linux-arm64");
    assert_eq!(self_artifact("r", "macos", "x86_64"), "r-darwin-x64");
    assert_eq!(self_artifact("r", "macos", "aarch64"), "r-darwin-arm64");
    assert_eq!(self_artifact("r", "windows", "x86_64"), "r-windows-x64.exe");
    assert_eq!(self_artifact("r", "windows", "aarch64"), "r-linux-x64.exe");
    assert_eq!(self_artifact("r", "freebsd", "x86_64"), "r-linux-x64");
}
