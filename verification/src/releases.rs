//! Release resolution: channel manifests, the GitHub release list, and how a
//! user-supplied version string becomes a cache tag.
use vstd::prelude::*;

use crate::text::{
    all_hex, ends_with, is_ws, skip_non_ws, skip_ws, all_hex_chars, char_is_digit, chars_of, count_char, find_char_from, find_from,
    find_pattern, find_seq, first_word, first_word_bounds, has_prefix, has_suffix,
    index_of_from, is_digit, seq_eq, slice_of, starts_with, string_of, string_of_range,
    strip_all_suffix, strip_all_suffix_chars, strip_prefix, strip_suffix, trim, trim_chars,
};

verus! {

/// The GitHub API endpoint that lists Rust releases.
pub const GITHUB_RELEASES_URL: &'static str = "https://api.github.com/repos/rust-lang/rust/releases";

/// The channel manifest of the nightly toolchain.
pub const NIGHTLY_MANIFEST_URL: &'static str = "https://static.rust-lang.org/dist/channel-rust-nightly.toml";

/// The channel manifest of the beta toolchain.
pub const BETA_MANIFEST_URL: &'static str = "https://static.rust-lang.org/dist/channel-rust-beta.toml";

/// One entry of the GitHub release list.
#[derive(Debug, Clone)]
pub struct GhRelease {
    pub tag_name: String,
    pub prerelease: bool,
}

impl View for GhRelease {
    type V = (Seq<char>, bool);

    open spec fn view(&self) -> (Seq<char>, bool) {
        (self.tag_name@, self.prerelease)
    }
}

/// A toolchain channel that is resolved through its manifest.
#[derive(Debug, Clone, Copy, PartialEq, Eq, Structural)]
pub enum Channel {
    Nightly,
    Beta,
}

/// Why a version string or a manifest did not resolve to a tag. `S` is the
/// text type: `String` in executable code, `Seq<char>` in specifications.
#[derive(Debug, Clone)]
pub enum ReleaseFailure<S> {
    /// The version was written with a `v` before its digits (`v1.87.0`).
    VersionPrefixed(S),
    /// No release in the list is a stable one.
    NoStableRelease,
    /// No stable release matches the requested version.
    NoStableMatch(S),
    /// The channel manifest holds no usable `version` entry under `[pkg.rust]`.
    ManifestUnparsable(Channel),
    /// The manifest's version or commit hash is empty.
    ManifestEmpty(Channel),
}

pub type ReleaseError = ReleaseFailure<String>;

impl View for ReleaseFailure<String> {
    type V = ReleaseFailure<Seq<char>>;

    open spec fn view(&self) -> ReleaseFailure<Seq<char>> {
        match self {
            ReleaseFailure::VersionPrefixed(s) => ReleaseFailure::VersionPrefixed(s@),
            ReleaseFailure::NoStableRelease => ReleaseFailure::NoStableRelease,
            ReleaseFailure::NoStableMatch(s) => ReleaseFailure::NoStableMatch(s@),
            ReleaseFailure::ManifestUnparsable(c) => ReleaseFailure::ManifestUnparsable(*c),
            ReleaseFailure::ManifestEmpty(c) => ReleaseFailure::ManifestEmpty(*c),
        }
    }
}

/// The name of a channel as messages show it.
pub open spec fn channel_name(c: Channel) -> Seq<char> {
    match c {
        Channel::Nightly => "nightly"@,
        Channel::Beta => "beta"@,
    }
}

/// The text that describes a failure.
pub open spec fn release_message(e: ReleaseFailure<Seq<char>>) -> Seq<char> {
    match e {
        ReleaseFailure::VersionPrefixed(v) => "No Rust release found matching '"@ + v + "'"@,
        ReleaseFailure::NoStableRelease => "No stable Rust release found on GitHub"@,
        ReleaseFailure::NoStableMatch(v) => "No stable Rust release found matching '"@ + v + "'"@,
        ReleaseFailure::ManifestUnparsable(c) => "Could not parse version from Rust "@ + channel_name(
            c,
        ) + " manifest"@,
        ReleaseFailure::ManifestEmpty(c) => "Empty version or SHA in Rust "@ + channel_name(c)
            + " manifest"@,
    }
}

impl ReleaseFailure<String> {
    /// The message that tells the user what went wrong.
    pub fn message(&self) -> (m: String)
        ensures
            m@ == release_message(self@),
    {
        match self {
            ReleaseFailure::VersionPrefixed(v) => {
                let mut m = String::from_str("No Rust release found matching '");
                m.append(v.as_str());
                m.append("'");
                m
            },
            ReleaseFailure::NoStableRelease => String::from_str(
                "No stable Rust release found on GitHub",
            ),
            ReleaseFailure::NoStableMatch(v) => {
                let mut m = String::from_str("No stable Rust release found matching '");
                m.append(v.as_str());
                m.append("'");
                m
            },
            ReleaseFailure::ManifestUnparsable(c) => {
                let mut m = String::from_str("Could not parse version from Rust ");
                m.append(
                    match c {
                        Channel::Nightly => "nightly",
                        Channel::Beta => "beta",
                    },
                );
                m.append(" manifest");
                m
            },
            ReleaseFailure::ManifestEmpty(c) => {
                let mut m = String::from_str("Empty version or SHA in Rust ");
                m.append(
                    match c {
                        Channel::Nightly => "nightly",
                        Channel::Beta => "beta",
                    },
                );
                m.append(" manifest");
                m
            },
        }
    }
}

// ---------------------------------------------------------------------------
// Channel manifests
// ---------------------------------------------------------------------------

/// Where the line that starts at `start` ends: at the next `'\n'`, or at the end of `s`.
pub open spec fn line_end(s: Seq<char>, start: int) -> int {
    match index_of_from(s, '\n', start) {
        Some(i) => i,
        None => s.len() as int,
    }
}

pub proof fn lemma_index_of_from_bounds(s: Seq<char>, c: char, i: int)
    requires
        0 <= i,
    ensures
        index_of_from(s, c, i) matches Some(j) ==> i <= j < s.len() && s[j] == c,
        index_of_from(s, c, i) matches Some(j) ==> forall|k: int| i <= k < j ==> s[k] != c,
        index_of_from(s, c, i) is None ==> forall|k: int| i <= k < s.len() ==> s[k] != c,
    decreases s.len() - i,
{
    if 0 <= i < s.len() && s[i] != c {
        lemma_index_of_from_bounds(s, c, i + 1);
    }
}

/// The `(version, commit)` pair held by one trimmed manifest line of the form
/// `version = "1.90.0-nightly (abc1234de 2025-02-01)"`: the version is what
/// stands before `" ("`, the commit is the first word after it without its
/// closing brackets, and it must be a non-empty run of hex digits.
pub open spec fn version_entry(line: Seq<char>) -> Option<(Seq<char>, Seq<char>)> {
    match strip_prefix(line, "version = \""@) {
        None => None,
        Some(rest) => match strip_suffix(rest, "\""@) {
            None => None,
            Some(ver) => match find_seq(ver, " ("@) {
                None => None,
                Some(p) => match first_word(ver.skip(p + 2)) {
                    None => None,
                    Some(w) => {
                        let sha = strip_all_suffix(w, ")"@);
                        if sha.len() > 0 && all_hex(sha) {
                            Some((ver.take(p), sha))
                        } else {
                            None
                        }
                    },
                },
            },
        },
    }
}

/// Reads the lines of a manifest from `start` on. `in_pkg` tells whether the
/// `[pkg.rust]` section has been entered; the next section header ends it.
/// The first line inside the section that is a `version_entry` gives the result.
pub open spec fn scan_manifest(body: Seq<char>, start: int, in_pkg: bool) -> Option<
    (Seq<char>, Seq<char>),
>
    decreases body.len() + 1 - start,
{
    if start < 0 || start >= body.len() {
        None
    } else {
        let end = line_end(body, start);
        proof {
            lemma_index_of_from_bounds(body, '\n', start);
        }
        let line = trim(body.subrange(start, end));
        if line == "[pkg.rust]"@ {
            scan_manifest(body, end + 1, true)
        } else if in_pkg && starts_with(line, "["@) {
            None
        } else if !in_pkg {
            scan_manifest(body, end + 1, false)
        } else {
            match version_entry(line) {
                Some(r) => Some(r),
                None => scan_manifest(body, end + 1, true),
            }
        }
    }
}

/// The `(version, commit)` pair of the `[pkg.rust]` section of a channel manifest.
pub open spec fn manifest_version_sha(body: Seq<char>) -> Option<(Seq<char>, Seq<char>)> {
    scan_manifest(body, 0, false)
}

fn version_entry_of(line: &Vec<char>) -> (r: Option<(String, String)>)
    ensures
        r is None ==> version_entry(line@) is None,
        r matches Some((a, b)) ==> version_entry(line@) == Some((a@, b@)),
{
    let key = chars_of("version = \"");
    let quote = chars_of("\"");
    let open = chars_of(" (");
    let close = chars_of(")");
    if !has_prefix(line, &key) {
        return None;
    }
    let rest = slice_of(line, key.len(), line.len());
    assert(rest@ == line@.skip(key@.len() as int));
    if !has_suffix(&rest, &quote) {
        return None;
    }
    let ver = slice_of(&rest, 0, rest.len() - quote.len());
    assert(ver@ =~= rest@.take(rest@.len() - quote@.len()));
    let p = match find_pattern(&ver, &open) {
        None => return None,
        Some(p) => p,
    };
    proof {
        lemma_find_from_bounds(ver@, open@, 0);
        reveal_strlit(" (");
    }
    let paren = slice_of(&ver, p + 2, ver.len());
    assert(paren@ =~= ver@.skip(p + 2));
    let (a, b) = match first_word_bounds(&paren) {
        None => return None,
        Some(ab) => ab,
    };
    let word = slice_of(&paren, a, b);
    let sha = strip_all_suffix_chars(&word, &close);
    if sha.len() > 0 && all_hex_chars(&sha) {
        let version_part = string_of_range(&ver, 0, p);
        assert(ver@.subrange(0, p as int) =~= ver@.take(p as int));
        Some((version_part, string_of(&sha)))
    } else {
        None
    }
}

pub proof fn lemma_find_from_bounds(s: Seq<char>, p: Seq<char>, i: int)
    ensures
        find_from(s, p, i) matches Some(j) ==> 0 <= i <= j && j + p.len() <= s.len()
            && s.subrange(j, j + p.len()) == p,
    decreases s.len() + 1 - i,
{
    if 0 <= i && i + p.len() <= s.len() && s.subrange(i, i + p.len()) != p {
        lemma_find_from_bounds(s, p, i + 1);
    }
}

/// Parse the `version = "X.Y.Z-channel (sha date)"` entry from the `[pkg.rust]`
/// section of a Rust channel manifest (TOML text) and return `(version_part, sha)`.
///
/// For nightly: `version_part = "1.90.0-nightly"`, `sha = "abc1234de"`.
/// For beta: `version_part = "1.88.0-beta.3"`, `sha = "def5678ab"`.
pub fn parse_version_sha_from_manifest(body: &str) -> (r: Option<(String, String)>)
    ensures
        r is None ==> manifest_version_sha(body@) is None,
        r matches Some((v, s)) ==> manifest_version_sha(body@) == Some((v@, s@)),
{
    let text = chars_of(body);
    let header = chars_of("[pkg.rust]");
    let bracket = chars_of("[");
    let mut start: usize = 0;
    let mut in_pkg = false;
    while start < text.len()
        invariant
            start <= text.len(),
            text@ == body@,
            header@ == "[pkg.rust]"@,
            bracket@ == "["@,
            manifest_version_sha(text@) == scan_manifest(text@, start as int, in_pkg),
        decreases text.len() - start,
    {
        let end = match find_char_from(&text, '\n', start) {
            Some(i) => i,
            None => text.len(),
        };
        proof {
            lemma_index_of_from_bounds(text@, '\n', start as int);
        }
        let raw = slice_of(&text, start, end);
        let line = trim_chars(&raw);
        if seq_eq(&line, &header) {
            in_pkg = true;
        } else if in_pkg && has_prefix(&line, &bracket) {
            return None;
        } else if in_pkg {
            match version_entry_of(&line) {
                Some(r) => {
                    return Some(r);
                },
                None => {},
            }
        }
        if end >= text.len() {
            assert(scan_manifest(text@, end + 1, in_pkg) is None);
            return None;
        }
        start = end + 1;
    }
    None
}

/// The cache tag built from a manifest's version and commit: the version, a
/// `+`, and at most the first nine characters of the commit hash.
pub open spec fn manifest_tag(version: Seq<char>, sha: Seq<char>) -> Seq<char> {
    version + "+"@ + sha.take(if sha.len() < 9 {
        sha.len() as int
    } else {
        9
    })
}

/// What a channel manifest resolves to.
pub open spec fn tag_from_manifest_spec(body: Seq<char>, channel: Channel) -> Result<
    Seq<char>,
    ReleaseFailure<Seq<char>>,
> {
    match manifest_version_sha(body) {
        None => Err(ReleaseFailure::ManifestUnparsable(channel)),
        Some((v, s)) => if v.len() == 0 || s.len() == 0 {
            Err(ReleaseFailure::ManifestEmpty(channel))
        } else {
            Ok(manifest_tag(v, s))
        },
    }
}

/// The cache key of the toolchain a channel manifest describes, such as
/// `"1.90.0-nightly+abc1234de"` or `"1.88.0-beta.3+def5678ab"`.
pub fn tag_from_manifest(body: &str, channel: Channel) -> (r: Result<String, ReleaseError>)
    ensures
        r matches Ok(t) ==> tag_from_manifest_spec(body@, channel) == Ok::<
            Seq<char>,
            ReleaseFailure<Seq<char>>,
        >(t@),
        r matches Err(e) ==> tag_from_manifest_spec(body@, channel) == Err::<
            Seq<char>,
            ReleaseFailure<Seq<char>>,
        >(e@),
{
    match parse_version_sha_from_manifest(body) {
        None => Err(ReleaseFailure::ManifestUnparsable(channel)),
        Some((version, sha)) => {
            let vc = chars_of(version.as_str());
            let sc = chars_of(sha.as_str());
            if vc.len() == 0 || sc.len() == 0 {
                return Err(ReleaseFailure::ManifestEmpty(channel));
            }
            let n = if sc.len() < 9 {
                sc.len()
            } else {
                9
            };
            let mut tag = version;
            tag.append("+");
            let short = string_of_range(&sc, 0, n);
            assert(sc@.subrange(0, n as int) =~= sc@.take(n as int));
            tag.append(short.as_str());
            Ok(tag)
        },
    }
}

// ---------------------------------------------------------------------------
// Version strings
// ---------------------------------------------------------------------------

/// `v` starts with `v` followed by a decimal digit, as in `v1.87.0`.
pub open spec fn is_v_prefixed(v: Seq<char>) -> bool {
    v.len() >= 2 && v[0] == 'v' && is_digit(v[1])
}

/// The aliases of the nightly channel.
pub open spec fn is_nightly_alias(v: Seq<char>) -> bool {
    ||| v == "nightly"@
    ||| v == "canary"@
    ||| v == "next"@
    ||| v == "edge"@
    ||| v == "latest"@
}

/// The aliases of the latest stable release.
pub open spec fn is_stable_alias(v: Seq<char>) -> bool {
    v.len() == 0 || v == "stable"@ || v == "lts"@ || v == "current"@
}

/// A version written out in three dot-separated parts of digits, such as `1.87.0`.
pub open spec fn is_exact_version(v: Seq<char>) -> bool {
    &&& count_char(v, '.') == 2
    &&& forall|i: int| 0 <= i < v.len() ==> is_digit(#[trigger] v[i]) || v[i] == '.'
}

/// The version with every trailing `.x`, then every trailing `.X`, removed.
pub open spec fn version_prefix(v: Seq<char>) -> Seq<char> {
    strip_all_suffix(strip_all_suffix(v, ".x"@), ".X"@)
}

/// The first index at or after `i` of a release that satisfies `p`.
pub open spec fn first_release_from(
    rels: Seq<(Seq<char>, bool)>,
    p: spec_fn((Seq<char>, bool)) -> bool,
    i: int,
) -> Option<int>
    decreases rels.len() - i,
{
    if i < 0 || i >= rels.len() {
        None
    } else if p(rels[i]) {
        Some(i)
    } else {
        first_release_from(rels, p, i + 1)
    }
}

/// A stable release.
pub open spec fn is_stable() -> spec_fn((Seq<char>, bool)) -> bool {
    |r: (Seq<char>, bool)| !r.1
}

/// A stable release whose tag is `prefix` or lies in the line `prefix.`.
pub open spec fn matches_prefix(prefix: Seq<char>) -> spec_fn((Seq<char>, bool)) -> bool {
    |r: (Seq<char>, bool)| !r.1 && (starts_with(r.0, prefix + "."@) || r.0 == prefix)
}

/// The tag that `resolve_from` gives for a version string and a release list.
pub open spec fn resolve_from_spec(vs: Seq<char>, rels: Seq<(Seq<char>, bool)>) -> Result<
    Seq<char>,
    ReleaseFailure<Seq<char>>,
> {
    let v = trim(vs);
    if is_v_prefixed(v) {
        Err(ReleaseFailure::VersionPrefixed(v))
    } else if is_nightly_alias(v) {
        Ok("nightly"@)
    } else if v == "beta"@ {
        Ok("beta"@)
    } else if is_stable_alias(v) {
        match first_release_from(rels, is_stable(), 0) {
            Some(i) => Ok(rels[i].0),
            None => Err(ReleaseFailure::NoStableRelease),
        }
    } else {
        match first_release_from(rels, matches_prefix(version_prefix(v)), 0) {
            Some(i) => Ok(rels[i].0),
            None => Err(ReleaseFailure::NoStableMatch(vs)),
        }
    }
}

pub open spec fn release_views(releases: Seq<GhRelease>) -> Seq<(Seq<char>, bool)> {
    releases.map_values(|r: GhRelease| r@)
}

fn is_v_prefixed_chars(v: &Vec<char>) -> (r: bool)
    ensures
        r == is_v_prefixed(v@),
{
    v.len() >= 2 && v[0] == 'v' && char_is_digit(v[1])
}

fn is_nightly_alias_chars(v: &Vec<char>) -> (r: bool)
    ensures
        r == is_nightly_alias(v@),
{
    seq_eq(v, &chars_of("nightly")) || seq_eq(v, &chars_of("canary")) || seq_eq(
        v,
        &chars_of("next"),
    ) || seq_eq(v, &chars_of("edge")) || seq_eq(v, &chars_of("latest"))
}

fn is_stable_alias_chars(v: &Vec<char>) -> (r: bool)
    ensures
        r == is_stable_alias(v@),
{
    v.len() == 0 || seq_eq(v, &chars_of("stable")) || seq_eq(v, &chars_of("lts")) || seq_eq(
        v,
        &chars_of("current"),
    )
}

/// The index of the first stable release in the list, if there is one.
fn first_stable_index(releases: &[GhRelease]) -> (r: Option<usize>)
    ensures
        r matches Some(i) ==> i < releases.len(),
        r matches Some(i) ==> first_release_from(release_views(releases@), is_stable(), 0) == Some(
            i as int,
        ),
        r is None ==> first_release_from(release_views(releases@), is_stable(), 0) is None,
{
    let ghost rels = release_views(releases@);
    let mut i: usize = 0;
    while i < releases.len()
        invariant
            i <= releases.len(),
            rels == release_views(releases@),
            first_release_from(rels, is_stable(), 0) == first_release_from(
                rels,
                is_stable(),
                i as int,
            ),
        decreases releases.len() - i,
    {
        if !releases[i].prerelease {
            return Some(i);
        }
        i = i + 1;
    }
    None
}

/// The index of the first stable release of the line `prefix`, if there is one.
fn first_prefix_index(releases: &[GhRelease], prefix: &Vec<char>) -> (r: Option<usize>)
    ensures
        r matches Some(i) ==> i < releases.len(),
        r matches Some(i) ==> first_release_from(
            release_views(releases@),
            matches_prefix(prefix@),
            0,
        ) == Some(i as int),
        r is None ==> first_release_from(release_views(releases@), matches_prefix(prefix@), 0) is None,
{
    let ghost rels = release_views(releases@);
    let mut needle = slice_of(prefix, 0, prefix.len());
    needle.push('.');
    proof {
        reveal_strlit(".");
        assert(prefix@.subrange(0, prefix@.len() as int) =~= prefix@);
        assert(needle@ =~= prefix@ + "."@);
    }
    let mut i: usize = 0;
    while i < releases.len()
        invariant
            i <= releases.len(),
            rels == release_views(releases@),
            needle@ == prefix@ + "."@,
            first_release_from(rels, matches_prefix(prefix@), 0) == first_release_from(
                rels,
                matches_prefix(prefix@),
                i as int,
            ),
        decreases releases.len() - i,
    {
        let r = &releases[i];
        if !r.prerelease {
            let tag = chars_of(r.tag_name.as_str());
            if has_prefix(&tag, &needle) || seq_eq(&tag, prefix) {
                return Some(i);
            }
        }
        i = i + 1;
    }
    None
}

/// Pure resolver operating on a pre-fetched release list.
///
/// - `"nightly"`, `"canary"`, `"next"`, `"edge"`, `"latest"` give `"nightly"`;
/// - `"beta"` gives `"beta"`;
/// - `"stable"`, `"lts"`, `"current"` and `""` give the first stable release;
/// - anything else, with trailing `.x`/`.X` removed, gives the first stable
///   release whose tag is that prefix or starts with it and a dot;
/// - a `v` before the digits (`v1.87`) is refused.
pub fn resolve_from(version_str: &str, releases: &[GhRelease]) -> (r: Result<String, ReleaseError>)
    ensures
        r matches Ok(t) ==> resolve_from_spec(version_str@, release_views(releases@)) == Ok::<
            Seq<char>,
            ReleaseFailure<Seq<char>>,
        >(t@),
        r matches Err(e) ==> resolve_from_spec(version_str@, release_views(releases@)) == Err::<
            Seq<char>,
            ReleaseFailure<Seq<char>>,
        >(e@),
{
    let ghost rels = release_views(releases@);
    let raw = chars_of(version_str);
    let v = trim_chars(&raw);
    if is_v_prefixed_chars(&v) {
        return Err(ReleaseFailure::VersionPrefixed(string_of(&v)));
    }
    if is_nightly_alias_chars(&v) {
        return Ok(String::from_str("nightly"));
    }
    if seq_eq(&v, &chars_of("beta")) {
        return Ok(String::from_str("beta"));
    }
    if is_stable_alias_chars(&v) {
        return match first_stable_index(releases) {
            Some(i) => Ok(releases[i].tag_name.clone()),
            None => Err(ReleaseFailure::NoStableRelease),
        };
    }
    let once = strip_all_suffix_chars(&v, &chars_of(".x"));
    let prefix = strip_all_suffix_chars(&once, &chars_of(".X"));
    match first_prefix_index(releases, &prefix) {
        Some(i) => Ok(releases[i].tag_name.clone()),
        None => Err(ReleaseFailure::NoStableMatch(String::from_str(version_str))),
    }
}


pub proof fn lemma_first_release_from(
    rels: Seq<(Seq<char>, bool)>,
    p: spec_fn((Seq<char>, bool)) -> bool,
    i: int,
)
    requires
        0 <= i,
    ensures
        first_release_from(rels, p, i) matches Some(k) ==> i <= k < rels.len() && p(rels[k]),
    decreases rels.len() - i,
{
    if i < rels.len() && !p(rels[i]) {
        lemma_first_release_from(rels, p, i + 1);
    }
}

/// Resolving against the release list never picks a pre-release: apart from
/// the nightly and beta aliases, the tag is that of a stable release in the list.
pub proof fn resolve_picks_stable_release(vs: Seq<char>, rels: Seq<(Seq<char>, bool)>)
    requires
        !is_nightly_alias(trim(vs)),
        trim(vs) != "beta"@,
    ensures
        resolve_from_spec(vs, rels) matches Ok(t) ==> exists|i: int|
            0 <= i < rels.len() && #[trigger] rels[i] == (t, false),
{
    lemma_first_release_from(rels, is_stable(), 0);
    lemma_first_release_from(rels, matches_prefix(version_prefix(trim(vs))), 0);
    if let Ok(t) = resolve_from_spec(vs, rels) {
        let v = trim(vs);
        let k = if is_stable_alias(v) {
            first_release_from(rels, is_stable(), 0)->0
        } else {
            first_release_from(rels, matches_prefix(version_prefix(v)), 0)->0
        };
        assert(rels[k] == (t, false));
    }
}

/// A version resolved through a version prefix lies in that version's line:
/// its tag is the prefix itself or starts with the prefix and a dot.
pub proof fn resolve_stays_in_line(vs: Seq<char>, rels: Seq<(Seq<char>, bool)>)
    requires
        !is_v_prefixed(trim(vs)),
        !is_nightly_alias(trim(vs)),
        trim(vs) != "beta"@,
        !is_stable_alias(trim(vs)),
    ensures
        resolve_from_spec(vs, rels) matches Ok(t) ==> t == version_prefix(trim(vs)) || starts_with(
            t,
            version_prefix(trim(vs)) + "."@,
        ),
{
    lemma_first_release_from(rels, matches_prefix(version_prefix(trim(vs))), 0);
}

/// `c` is where a line of `body` starts.
pub open spec fn is_line_start(body: Seq<char>, c: int) -> bool {
    0 <= c < body.len() && (c == 0 || body[c - 1] == '\n')
}

/// The trimmed text of the line that starts at `c`.
pub open spec fn line_at(body: Seq<char>, c: int) -> Seq<char> {
    trim(body.subrange(c, line_end(body, c)))
}

/// `line` reads `version = "{v} (`, then optional whitespace and the hash `s`,
/// and ends with a `"`.
pub open spec fn is_entry_line(line: Seq<char>, v: Seq<char>, s: Seq<char>) -> bool {
    let pre = "version = \""@ + v + " ("@;
    &&& starts_with(line, pre)
    &&& ends_with(line, "\""@)
    &&& exists|k: int|
        #![trigger line.subrange(pre.len() + k, pre.len() + k + s.len())]
        0 <= k && pre.len() + k + s.len() <= line.len() && (forall|i: int|
            pre.len() <= i < pre.len() + k ==> is_ws(#[trigger] line[i])) && line.subrange(
            pre.len() + k,
            pre.len() + k + s.len(),
        ) == s
}

/// The line at `a` lies in the `[pkg.rust]` section that starts with the
/// header line at `h`: no line between them starts a section.
pub open spec fn in_section_of(body: Seq<char>, h: int, a: int) -> bool {
    &&& is_line_start(body, h)
    &&& line_at(body, h) == "[pkg.rust]"@
    &&& line_end(body, h) < a
    &&& forall|c: int|
        #![trigger is_line_start(body, c)]
        is_line_start(body, c) && line_end(body, h) < c < a ==> !starts_with(
            line_at(body, c),
            "["@,
        )
}

proof fn lemma_skip_ws_all(s: Seq<char>, i: int)
    requires
        0 <= i <= s.len(),
    ensures
        forall|k: int| i <= k < skip_ws(s, i) ==> is_ws(#[trigger] s[k]),
        skip_ws(s, i) <= skip_non_ws(s, skip_ws(s, i)) <= s.len(),
    decreases s.len() - i,
{
    crate::text::lemma_skip_ws(s, i);
    if i < s.len() && is_ws(s[i]) {
        lemma_skip_ws_all(s, i + 1);
    } else {
        lemma_skip_non_ws(s, i);
    }
}

proof fn lemma_skip_non_ws(s: Seq<char>, i: int)
    requires
        0 <= i <= s.len(),
    ensures
        i <= skip_non_ws(s, i) <= s.len(),
    decreases s.len() - i,
{
    if i < s.len() && !is_ws(s[i]) {
        lemma_skip_non_ws(s, i + 1);
    }
}

proof fn lemma_strip_all_suffix_is_prefix(s: Seq<char>, p: Seq<char>)
    ensures
        strip_all_suffix(s, p).len() <= s.len(),
        strip_all_suffix(s, p) == s.take(strip_all_suffix(s, p).len() as int),
    decreases s.len(),
{
    if p.len() > 0 && crate::text::ends_with(s, p) {
        let t = s.take(s.len() - p.len());
        lemma_strip_all_suffix_is_prefix(t, p);
        assert(t.take(strip_all_suffix(t, p).len() as int) =~= s.take(
            strip_all_suffix(t, p).len() as int,
        ));
    } else {
        assert(s.take(s.len() as int) =~= s);
    }
}

proof fn lemma_version_entry_line(line: Seq<char>)
    ensures
        version_entry(line) matches Some((v, s)) ==> s.len() > 0 && all_hex(s) && is_entry_line(
            line,
            v,
            s,
        ),
{
    if let Some((v, sha)) = version_entry(line) {
        let key = "version = \""@;
        let open = " ("@;
        reveal_strlit("version = \"");
        reveal_strlit("\"");
        reveal_strlit(" (");
        let k = key.len() as int;
        let rest = line.skip(k);
        let ver = rest.take(rest.len() - 1);
        let p = find_seq(ver, open)->0;
        lemma_find_from_bounds(ver, open, 0);
        assert(ver.take(p) == v);
        let pre = key + v + open;
        assert(line.subrange(0, k) =~= key);
        assert(line.subrange(k, k + p) =~= v);
        assert(line.subrange(k + p, k + p + 2) =~= ver.subrange(p, p + 2));
        assert(line.subrange(0, pre.len() as int) =~= pre);
        assert(line.subrange(line.len() - 1, line.len() as int) =~= rest.subrange(
            rest.len() - 1,
            rest.len() as int,
        ));
        let paren = ver.skip(p + 2);
        let a0 = skip_ws(paren, 0);
        lemma_skip_ws_all(paren, 0);
        crate::text::lemma_skip_ws(paren, 0);
        let w = paren.subrange(a0, skip_non_ws(paren, a0));
        lemma_strip_all_suffix_is_prefix(w, ")"@);
        assert(pre.len() == k + p + 2);
        assert(a0 < paren.len());
        assert(a0 <= skip_non_ws(paren, a0) <= paren.len());
        let e0 = skip_non_ws(paren, a0);
        assert(0 <= a0 <= e0 <= paren.len());
        assert(w.len() == e0 - a0);
        assert(first_word(paren) == Some(w));
        assert(sha == strip_all_suffix(w, ")"@));
        assert(sha.len() <= w.len());
        assert(paren.len() == line.len() - pre.len() - 1);
        assert forall|i: int| pre.len() <= i < pre.len() + a0 implies is_ws(#[trigger] line[i]) by {
            assert(line[i] == paren[i - pre.len()]);
        }
        assert(line.subrange(pre.len() + a0, pre.len() + a0 + sha.len()) =~= sha) by {
            assert forall|j: int| 0 <= j < sha.len() implies line.subrange(
                pre.len() + a0,
                pre.len() + a0 + sha.len(),
            )[j] == sha[j] by {
                let x = a0 + j;
                assert(0 <= x < paren.len());
                assert(paren[x] == ver[p + 2 + x]);
                assert(ver[p + 2 + x] == rest[p + 2 + x]);
                assert(rest[p + 2 + x] == line[k + p + 2 + x]);
                assert(sha[j] == w[j]);
                assert(w[j] == paren[a0 + j]);
            }
        }
    }
}

proof fn lemma_line_end(body: Seq<char>, start: int)
    requires
        0 <= start < body.len(),
    ensures
        start <= line_end(body, start) <= body.len(),
        line_end(body, start) < body.len() ==> body[line_end(body, start)] == '\n',
        forall|k: int| start <= k < line_end(body, start) ==> body[k] != '\n',
        forall|c: int|
            #![trigger is_line_start(body, c)]
            start < c <= line_end(body, start) ==> !is_line_start(body, c),
        line_end(body, start) + 1 < body.len() ==> is_line_start(body, line_end(body, start) + 1),
{
    lemma_index_of_from_bounds(body, '\n', start);
    assert forall|c: int| #![trigger is_line_start(body, c)] start < c <= line_end(body, start) implies !is_line_start(
        body,
        c,
    ) by {
        assert(body[c - 1] != '\n');
    }
}

proof fn lemma_scan_section(body: Seq<char>, start: int, in_pkg: bool, h: int)
    requires
        0 <= start,
        start < body.len() ==> is_line_start(body, start),
        in_pkg ==> in_section_of(body, h, start),
    ensures
        scan_manifest(body, start, in_pkg) matches Some((v, s)) ==> {
            &&& s.len() > 0
            &&& all_hex(s)
            &&& exists|hh: int, a: int|
                #![trigger in_section_of(body, hh, a)]
                in_section_of(body, hh, a) && is_line_start(body, a) && is_entry_line(
                    line_at(body, a),
                    v,
                    s,
                )
        },
    decreases body.len() + 1 - start,
{
    if start < body.len() {
        lemma_line_end(body, start);
        let end = line_end(body, start);
        let line = trim(body.subrange(start, end));
        assert(line == line_at(body, start));
        if line == "[pkg.rust]"@ {
            if end + 1 < body.len() {
                assert(in_section_of(body, start, end + 1));
            }
            lemma_scan_section(body, end + 1, true, start);
        } else if in_pkg && starts_with(line, "["@) {
        } else if !in_pkg {
            lemma_scan_section(body, end + 1, false, h);
        } else {
            lemma_version_entry_line(line);
            match version_entry(line) {
                Some((v, sha)) => {
                    assert(in_section_of(body, h, start));
                },
                None => {
                    if end + 1 < body.len() {
                        assert forall|c: int|
                            #![trigger is_line_start(body, c)]
                            is_line_start(body, c) && line_end(body, h) < c < end + 1 implies !starts_with(
                            line_at(body, c),
                            "["@,
                        ) by {
                            if c > start {
                                assert(!is_line_start(body, c));
                            }
                        }
                        assert(in_section_of(body, h, end + 1));
                    }
                    lemma_scan_section(body, end + 1, true, h);
                },
            }
        }
    }
}

proof fn lemma_scan_needs_header(body: Seq<char>, start: int)
    requires
        0 <= start,
        start < body.len() ==> is_line_start(body, start),
        forall|c: int|
            #![trigger is_line_start(body, c)]
            is_line_start(body, c) ==> line_at(body, c) != "[pkg.rust]"@,
    ensures
        scan_manifest(body, start, false) is None,
    decreases body.len() + 1 - start,
{
    if start < body.len() {
        lemma_line_end(body, start);
        assert(trim(body.subrange(start, line_end(body, start))) == line_at(body, start));
        lemma_scan_needs_header(body, line_end(body, start) + 1);
    }
}

/// What a manifest yields comes from its `[pkg.rust]` section: the commit is
/// a non-empty run of hex digits, and it comes from a line after a line that
/// trims to `[pkg.rust]`, with no line between them that starts a section,
/// which reads `version = "{version} ({commit}` (whitespace allowed before
/// the commit) and ends with a `"`. A manifest in which no line trims to
/// `[pkg.rust]` yields nothing, whatever `version` lines its other sections hold.
pub proof fn manifest_result_comes_from_pkg_rust_line(body: Seq<char>)
    ensures
        manifest_version_sha(body) matches Some((v, s)) ==> {
            &&& s.len() > 0
            &&& all_hex(s)
            &&& exists|h: int, a: int|
                #![trigger in_section_of(body, h, a)]
                in_section_of(body, h, a) && is_line_start(body, a) && is_entry_line(
                    line_at(body, a),
                    v,
                    s,
                )
        },
        (forall|c: int|
            #![trigger is_line_start(body, c)]
            is_line_start(body, c) ==> line_at(body, c) != "[pkg.rust]"@)
            ==> manifest_version_sha(body) is None,
{
    lemma_scan_section(body, 0, false, 0);
    if forall|c: int|
        #![trigger is_line_start(body, c)]
        is_line_start(body, c) ==> line_at(body, c) != "[pkg.rust]"@ {
        lemma_scan_needs_header(body, 0);
    }
}

// ---------------------------------------------------------------------------
// Resolving a version string
// ---------------------------------------------------------------------------

/// How a version string resolves to a cache tag. `S` is the text type.
#[derive(Debug)]
pub enum TagRequestOf<S> {
    /// Resolved without any network access: the tag, or why there is none.
    Ready(Result<S, ReleaseFailure<S>>),
    /// The tag comes from the manifest of this channel (see `tag_from_manifest`).
    FromManifest(Channel),
    /// The tag comes from the release list: pass this version to `resolve_from`.
    FromReleases(S),
}

pub type TagRequest = TagRequestOf<String>;

impl View for TagRequestOf<String> {
    type V = TagRequestOf<Seq<char>>;

    open spec fn view(&self) -> TagRequestOf<Seq<char>> {
        match self {
            TagRequestOf::Ready(Ok(t)) => TagRequestOf::Ready(Ok(t@)),
            TagRequestOf::Ready(Err(e)) => TagRequestOf::Ready(Err(e@)),
            TagRequestOf::FromManifest(c) => TagRequestOf::FromManifest(*c),
            TagRequestOf::FromReleases(v) => TagRequestOf::FromReleases(v@),
        }
    }
}

/// What `resolve_tag` decides for a version string.
pub open spec fn resolve_tag_spec(vs: Seq<char>) -> TagRequestOf<Seq<char>> {
    let v = trim(vs);
    if is_v_prefixed(v) {
        TagRequestOf::Ready(Err(ReleaseFailure::VersionPrefixed(v)))
    } else if is_nightly_alias(v) {
        TagRequestOf::FromManifest(Channel::Nightly)
    } else if v == "beta"@ {
        TagRequestOf::FromManifest(Channel::Beta)
    } else if is_exact_version(v) {
        TagRequestOf::Ready(Ok(v))
    } else {
        TagRequestOf::FromReleases(v)
    }
}

fn count_char_in(v: &Vec<char>, c: char) -> (n: usize)
    ensures
        n == count_char(v@, c),
{
    let mut n: usize = 0;
    let mut i: usize = 0;
    assert(v@.take(0) =~= Seq::<char>::empty());
    while i < v.len()
        invariant
            i <= v.len(),
            n <= i,
            n == count_char(v@.take(i as int), c),
        decreases v.len() - i,
    {
        assert(v@.take(i + 1).drop_last() =~= v@.take(i as int));
        if v[i] == c {
            n = n + 1;
        }
        i = i + 1;
    }
    assert(v@.take(v.len() as int) =~= v@);
    n
}

fn is_exact_version_chars(v: &Vec<char>) -> (r: bool)
    ensures
        r == is_exact_version(v@),
{
    if count_char_in(v, '.') != 2 {
        return false;
    }
    let mut i: usize = 0;
    while i < v.len()
        invariant
            i <= v.len(),
            forall|j: int| 0 <= j < i ==> is_digit(#[trigger] v@[j]) || v@[j] == '.',
        decreases v.len() - i,
    {
        if !char_is_digit(v[i]) && v[i] != '.' {
            return false;
        }
        i = i + 1;
    }
    true
}

/// Resolve a user-supplied version string to a cache tag, or say where the tag comes from.
///
/// - `"nightly"` / `"canary"` / `"next"` / `"edge"` / `"latest"`: the nightly manifest;
/// - `"beta"`: the beta manifest;
/// - `"1.87.0"` (three parts of digits): the tag itself, with no network access;
/// - anything else (`"stable"`, `"1.87"`, ...): the release list, through `resolve_from`;
/// - a `v` before the digits is refused.
pub fn resolve_tag(version_str: &str) -> (r: TagRequest)
    ensures
        r@ == resolve_tag_spec(version_str@),
{
    let raw = chars_of(version_str);
    let v = trim_chars(&raw);
    if is_v_prefixed_chars(&v) {
        return TagRequestOf::Ready(Err(ReleaseFailure::VersionPrefixed(string_of(&v))));
    }
    if is_nightly_alias_chars(&v) {
        return TagRequestOf::FromManifest(Channel::Nightly);
    }
    if seq_eq(&v, &chars_of("beta")) {
        return TagRequestOf::FromManifest(Channel::Beta);
    }
    if is_exact_version_chars(&v) {
        return TagRequestOf::Ready(Ok(string_of(&v)));
    }
    TagRequestOf::FromReleases(string_of(&v))
}

/// The channel manifests are read for the channel names alone: every alias of
/// the nightly channel (`nightly`, `canary`, `next`, `edge`, `latest`), with
/// any surrounding whitespace, reads the nightly manifest, and exactly the
/// text `beta` reads the beta manifest.
pub proof fn channel_names_select_their_manifest(vs: Seq<char>)
    ensures
        ({
            let v = trim(vs);
            v == "nightly"@ || v == "canary"@ || v == "next"@ || v == "edge"@ || v == "latest"@
        }) <==> resolve_tag_spec(vs) == TagRequestOf::<Seq<char>>::FromManifest(Channel::Nightly),
        trim(vs) == "beta"@ <==> resolve_tag_spec(vs) == TagRequestOf::<Seq<char>>::FromManifest(
            Channel::Beta,
        ),
{
    reveal_strlit("nightly");
    reveal_strlit("canary");
    reveal_strlit("next");
    reveal_strlit("edge");
    reveal_strlit("latest");
    reveal_strlit("beta");
    let v = trim(vs);
    if v == "nightly"@ || v == "canary"@ || v == "next"@ || v == "edge"@ || v == "latest"@ || v
        == "beta"@ {
        assert(!is_digit(v[1]));
    }
    if v == "beta"@ {
        assert(v[0] == 'b' && v.len() == 4);
        assert(v != "next"@ && v != "edge"@) by {
            assert("next"@[0] == 'n' && "edge"@[0] == 'e');
        }
    }
}

/// The stable aliases (`stable`, `lts`, `current` and the empty text) are
/// resolved through the release list, and a version written with a `v`
/// before its first digit is refused as it was given (trimmed).
pub proof fn stable_and_prefixed_inputs(vs: Seq<char>)
    ensures
        ({
            let v = trim(vs);
            v == "stable"@ || v == "lts"@ || v == "current"@ || v.len() == 0
        }) ==> resolve_tag_spec(vs) == TagRequestOf::<Seq<char>>::FromReleases(trim(vs)),
        ({
            let v = trim(vs);
            v.len() >= 2 && v[0] == 'v' && is_digit(v[1])
        }) ==> resolve_tag_spec(vs) == TagRequestOf::<Seq<char>>::Ready(
            Err(ReleaseFailure::VersionPrefixed(trim(vs))),
        ),
{
    reveal_strlit("nightly");
    reveal_strlit("canary");
    reveal_strlit("next");
    reveal_strlit("edge");
    reveal_strlit("latest");
    reveal_strlit("beta");
    reveal_strlit("stable");
    reveal_strlit("lts");
    reveal_strlit("current");
    let v = trim(vs);
    if v == "stable"@ || v == "lts"@ || v == "current"@ || v.len() == 0 {
        if v.len() > 0 {
            assert(!is_digit(v[1]));
            assert(v[0] == 's' || v[0] == 'l' || v[0] == 'c');
            assert(!is_nightly_alias(v)) by {
                assert("nightly"@[0] == 'n' && "canary"@[0] == 'c' && "canary"@.len() == 6);
                assert("next"@[0] == 'n' && "edge"@[0] == 'e' && "latest"@[0] == 'l');
                assert("latest"@.len() == 6 && "current"@.len() == 7);
            }
            assert(v != "beta"@) by {
                assert("beta"@[0] == 'b');
            }
            assert(!is_exact_version(v)) by {
                assert(!is_digit(v[0]) && v[0] != '.');
            }
        }
    }
}

/// The decimal digits of `n`, most significant first, with no leading zeros.
pub open spec fn decimal(n: nat) -> Seq<char>
    decreases n,
{
    if n < 10 {
        seq![(48 + n) as char]
    } else {
        decimal(n / 10).push((48 + n % 10) as char)
    }
}

/// The decimal digits of `n`, most significant first.
fn u32_decimal(n: u32) -> (s: String)
    ensures
        s@ == decimal(n as nat),
    decreases n,
{
    let d = (n % 10) as u8;
    let c = (48u8 + d) as char;
    assert(c == (48 + (n as nat) % 10) as char);
    if n < 10 {
        let mut s = String::new();
        s.push(c);
        assert(s@ =~= seq![c]);
        s
    } else {
        let mut s = u32_decimal(n / 10);
        s.push(c);
        s
    }
}

/// The release-list URL that asks for `per_page` releases.
pub open spec fn releases_url_spec(per_page: u32) -> Seq<char> {
    GITHUB_RELEASES_URL@ + "?per_page="@ + decimal(per_page as nat)
}

/// The GitHub API URL that lists the latest `per_page` Rust releases.
pub fn releases_url(per_page: u32) -> (url: String)
    ensures
        url@ == releases_url_spec(per_page),
{
    let mut url = String::from_str(GITHUB_RELEASES_URL);
    url.append("?per_page=");
    let n = u32_decimal(per_page);
    url.append(n.as_str());
    url
}

/// The manifest URL of a channel.
pub fn manifest_url(channel: Channel) -> (url: &'static str)
    ensures
        channel == Channel::Nightly ==> url@ == NIGHTLY_MANIFEST_URL@,
        channel == Channel::Beta ==> url@ == BETA_MANIFEST_URL@,
{
    match channel {
        Channel::Nightly => NIGHTLY_MANIFEST_URL,
        Channel::Beta => BETA_MANIFEST_URL,
    }
}

} // verus!
