//! Platforms: target triples, toolchain download URLs and the names of this
//! program's own release artifacts. A platform is named as
//! `std::env::consts::OS` and `std::env::consts::ARCH` name it.
use vstd::prelude::*;

use crate::text::{contains_seq, str_contains, str_eq, str_starts_with, starts_with};

verus! {

/// Where Rust toolchain archives are published.
pub const DIST_URL: &'static str = "https://static.rust-lang.org/dist/rust-";

/// The Rust target triple of a platform, `x86_64-unknown-linux-gnu` for any
/// platform without a published toolchain.
pub open spec fn target_spec(os: Seq<char>, arch: Seq<char>) -> Seq<char> {
    if os == "linux"@ && arch == "x86_64"@ {
        "x86_64-unknown-linux-gnu"@
    } else if os == "linux"@ && arch == "aarch64"@ {
        "aarch64-unknown-linux-gnu"@
    } else if os == "macos"@ && arch == "x86_64"@ {
        "x86_64-apple-darwin"@
    } else if os == "macos"@ && arch == "aarch64"@ {
        "aarch64-apple-darwin"@
    } else if os == "windows"@ && arch == "x86_64"@ {
        "x86_64-pc-windows-msvc"@
    } else if os == "windows"@ && arch == "aarch64"@ {
        "aarch64-pc-windows-msvc"@
    } else {
        "x86_64-unknown-linux-gnu"@
    }
}

/// The six target triples that toolchains are installed for.
pub open spec fn is_known_target(t: Seq<char>) -> bool {
    ||| t == "x86_64-unknown-linux-gnu"@
    ||| t == "aarch64-unknown-linux-gnu"@
    ||| t == "x86_64-apple-darwin"@
    ||| t == "aarch64-apple-darwin"@
    ||| t == "x86_64-pc-windows-msvc"@
    ||| t == "aarch64-pc-windows-msvc"@
}

/// Returns the Rust target triple for the platform `os`/`arch`.
/// Rust release filenames use the pattern: `rust-{version}-{target}.tar.gz`
/// e.g. `rust-1.87.0-x86_64-unknown-linux-gnu.tar.gz`
pub fn target(os: &str, arch: &str) -> (t: &'static str)
    ensures
        t@ == target_spec(os@, arch@),
        is_known_target(t@),
{
    let linux = str_eq(os, "linux");
    let macos = str_eq(os, "macos");
    let windows = str_eq(os, "windows");
    let x86_64 = str_eq(arch, "x86_64");
    let aarch64 = str_eq(arch, "aarch64");
    if linux && x86_64 {
        "x86_64-unknown-linux-gnu"
    } else if linux && aarch64 {
        "aarch64-unknown-linux-gnu"
    } else if macos && x86_64 {
        "x86_64-apple-darwin"
    } else if macos && aarch64 {
        "aarch64-apple-darwin"
    } else if windows && x86_64 {
        "x86_64-pc-windows-msvc"
    } else if windows && aarch64 {
        "aarch64-pc-windows-msvc"
    } else {
        "x86_64-unknown-linux-gnu"
    }
}

/// The tag names a nightly toolchain: `nightly-YYYY-MM-DD`, or a resolved
/// key such as `1.90.0-nightly+abc1234de`.
pub open spec fn is_nightly_tag(tag: Seq<char>) -> bool {
    starts_with(tag, "nightly"@) || contains_seq(tag, "-nightly"@)
}

/// The tag names a beta toolchain: `beta`, or a resolved key such as
/// `1.88.0-beta.3+def5678ab`.
pub open spec fn is_beta_tag(tag: Seq<char>) -> bool {
    starts_with(tag, "beta"@) || contains_seq(tag, "-beta"@)
}

/// The download URL of the toolchain `tag` for the target `target`: the
/// channel archive for a nightly or beta tag, the release archive otherwise.
pub open spec fn download_url_spec(tag: Seq<char>, target: Seq<char>) -> Seq<char> {
    let slug = if is_nightly_tag(tag) {
        "nightly"@
    } else if is_beta_tag(tag) {
        "beta"@
    } else {
        tag
    };
    DIST_URL@ + slug + "-"@ + target + ".tar.gz"@
}

/// Build the download URL for a specific Rust toolchain tag and target triple.
///
/// Tags encode the channel:
/// - `"nightly-YYYY-MM-DD"` or `"1.90.0-nightly+abc1234de"` gives
///   `https://static.rust-lang.org/dist/rust-nightly-{target}.tar.gz`
/// - `"beta"` or `"1.88.0-beta.3+def5678ab"` gives
///   `https://static.rust-lang.org/dist/rust-beta-{target}.tar.gz`
/// - `"1.87.0"` gives `https://static.rust-lang.org/dist/rust-1.87.0-{target}.tar.gz`
pub fn download_url(tag: &str, target: &str) -> (url: String)
    ensures
        url@ == download_url_spec(tag@, target@),
{
    let mut url = String::from_str(DIST_URL);
    if str_starts_with(tag, "nightly") || str_contains(tag, "-nightly") {
        url.append("nightly");
    } else if str_starts_with(tag, "beta") || str_contains(tag, "-beta") {
        url.append("beta");
    } else {
        url.append(tag);
    }
    url.append("-");
    url.append(target);
    url.append(".tar.gz");
    url
}

/// The platform part of this program's release artifact names.
pub open spec fn artifact_platform(os: Seq<char>, arch: Seq<char>) -> Seq<char> {
    if os == "linux"@ && arch == "x86_64"@ {
        "linux-x64"@
    } else if os == "linux"@ && arch == "aarch64"@ {
        "linux-arm64"@
    } else if os == "macos"@ && arch == "x86_64"@ {
        "darwin-x64"@
    } else if os == "macos"@ && arch == "aarch64"@ {
        "darwin-arm64"@
    } else if os == "windows"@ && arch == "x86_64"@ {
        "windows-x64"@
    } else {
        "linux-x64"@
    }
}

/// The name of this program's release artifact for a platform.
pub open spec fn self_artifact_spec(name: Seq<char>, os: Seq<char>, arch: Seq<char>) -> Seq<char> {
    let base = name + "-"@ + artifact_platform(os, arch);
    if os == "windows"@ {
        base + ".exe"@
    } else {
        base
    }
}

/// The file name of the release artifact of the program `name` for the
/// platform `os`/`arch`, such as `r-linux-x64` or `r-windows-x64.exe`.
pub fn self_artifact(name: &str, os: &str, arch: &str) -> (a: String)
    ensures
        a@ == self_artifact_spec(name@, os@, arch@),
{
    let linux = str_eq(os, "linux");
    let macos = str_eq(os, "macos");
    let windows = str_eq(os, "windows");
    let x86_64 = str_eq(arch, "x86_64");
    let aarch64 = str_eq(arch, "aarch64");
    let os_arch = if linux && x86_64 {
        "linux-x64"
    } else if linux && aarch64 {
        "linux-arm64"
    } else if macos && x86_64 {
        "darwin-x64"
    } else if macos && aarch64 {
        "darwin-arm64"
    } else if windows && x86_64 {
        "windows-x64"
    } else {
        "linux-x64"
    };
    let mut a = String::from_str(name);
    a.append("-");
    a.append(os_arch);
    if windows {
        a.append(".exe");
    }
    a
}

} // verus!
