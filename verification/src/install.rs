//! Installing, fetching, running and removing toolchains: how user input is
//! classified, which cached version it selects, and the canonical cache key
//! of an installed toolchain.
use vstd::prelude::*;

use crate::cache::{
    cache_key_sha, cache_key_sha_spec, entry_models, find_by_sha, find_by_version_prefix,
    newest_name, opt_view, sha_matches, sha_matches_spec, CacheEntry, EntryModel, QueryModel,
};
use crate::releases::version_prefix;
use crate::text::{
    all_hex, all_hex_chars, before_char, char_is_digit, char_is_hex_letter, chars_of,
    find_char, first_word, first_word_bounds, has_prefix, index_of, is_digit, is_hex,
    is_hex_letter, seq_eq, slice_of, split_once, str_eq, string_of, string_of_range,
    strip_all_prefix, strip_all_prefix_chars, strip_all_suffix_chars, strip_prefix, trim,
    trim_chars,
};

verus! {

// ---------------------------------------------------------------------------
// Classifying user input
// ---------------------------------------------------------------------------

/// The symbolic aliases, resolved entirely through the network.
pub open spec fn is_alias_spec(s: Seq<char>) -> bool {
    ||| s == "lts"@
    ||| s == "stable"@
    ||| s == "current"@
    ||| s == "latest"@
    ||| s == "canary"@
    ||| s == "nightly"@
    ||| s == "next"@
    ||| s == "edge"@
    ||| s == "beta"@
}

/// Returns `true` if the input is a symbolic alias resolved entirely via network.
pub fn is_alias(s: &str) -> (r: bool)
    ensures
        r == is_alias_spec(s@),
{
    let c = chars_of(s);
    seq_eq(&c, &chars_of("lts")) || seq_eq(&c, &chars_of("stable")) || seq_eq(
        &c,
        &chars_of("current"),
    ) || seq_eq(&c, &chars_of("latest")) || seq_eq(&c, &chars_of("canary")) || seq_eq(
        &c,
        &chars_of("nightly"),
    ) || seq_eq(&c, &chars_of("next")) || seq_eq(&c, &chars_of("edge")) || seq_eq(
        &c,
        &chars_of("beta"),
    )
}

/// A character that may appear in a bare version number.
pub open spec fn is_version_char(c: char) -> bool {
    is_digit(c) || c == '.' || c == 'x' || c == 'X'
}

/// A bare version number: a digit first, then only digits, `.`, `x` and `X`.
pub open spec fn looks_like_version_spec(s: Seq<char>) -> bool {
    &&& s.len() > 0
    &&& is_digit(s[0])
    &&& forall|i: int| 0 <= i < s.len() ==> is_version_char(#[trigger] s[i])
}

/// Returns `true` if the input looks like a bare version number.
pub fn looks_like_version(s: &str) -> (r: bool)
    ensures
        r == looks_like_version_spec(s@),
{
    let c = chars_of(s);
    if c.len() == 0 || !char_is_digit(c[0]) {
        return false;
    }
    let mut i: usize = 0;
    while i < c.len()
        invariant
            i <= c.len(),
            c@ == s@,
            forall|j: int| 0 <= j < i ==> is_version_char(#[trigger] c@[j]),
        decreases c.len() - i,
    {
        let ch = c[i];
        if !(char_is_digit(ch) || ch == '.' || ch == 'x' || ch == 'X') {
            return false;
        }
        i = i + 1;
    }
    true
}

/// A git commit hash as a user types it: 7 to 40 hex digits, at least one of
/// them a letter `a`-`f` (either case).
pub open spec fn is_sha_input_spec(s: Seq<char>) -> bool {
    &&& 7 <= s.len() <= 40
    &&& all_hex(s)
    &&& exists|i: int| 0 <= i < s.len() && is_hex_letter(#[trigger] s[i])
}

/// Returns `true` if the input looks like a git commit SHA (7-40 hex chars
/// with at least one letter `a`-`f`).
pub fn is_sha_input(s: &str) -> (r: bool)
    ensures
        r == is_sha_input_spec(s@),
{
    let c = chars_of(s);
    if c.len() < 7 || c.len() > 40 || !all_hex_chars(&c) {
        return false;
    }
    let mut i: usize = 0;
    while i < c.len()
        invariant
            i <= c.len(),
            c@ == s@,
            7 <= c.len() <= 40,
            all_hex(c@),
            forall|j: int| 0 <= j < i ==> !is_hex_letter(#[trigger] c@[j]),
        decreases c.len() - i,
    {
        if char_is_hex_letter(c[i]) {
            return true;
        }
        i = i + 1;
    }
    false
}

/// No input is both a version number and a commit hash.
pub proof fn version_and_sha_inputs_are_disjoint(s: Seq<char>)
    ensures
        !(looks_like_version_spec(s) && is_sha_input_spec(s)),
{
    if looks_like_version_spec(s) && is_sha_input_spec(s) {
        let i = choose|i: int| 0 <= i < s.len() && is_hex_letter(#[trigger] s[i]);
        assert(is_version_char(s[i]));
    }
}

/// No alias looks like a version number or a commit hash.
pub proof fn aliases_are_not_versions_or_shas(s: Seq<char>)
    requires
        is_alias_spec(s),
    ensures
        !looks_like_version_spec(s),
        !is_sha_input_spec(s),
{
    reveal_strlit("lts");
    reveal_strlit("stable");
    reveal_strlit("current");
    reveal_strlit("latest");
    reveal_strlit("canary");
    reveal_strlit("nightly");
    reveal_strlit("next");
    reveal_strlit("edge");
    reveal_strlit("beta");
    if is_sha_input_spec(s) {
        assert(!is_hex(s[1]));
    }
}

// ---------------------------------------------------------------------------
// Tags and cache keys
// ---------------------------------------------------------------------------

/// The base version of a resolved tag (before any `+sha`, cut at the first
/// `-`) and the SHA after the first `+`, if any.
pub open spec fn extract_ver_sha_spec(tag: Seq<char>) -> (Seq<char>, Option<Seq<char>>) {
    match split_once(tag, '+') {
        Some((v, s)) => (before_char(v, '-'), Some(s)),
        None => (before_char(tag, '-'), None),
    }
}

fn before_char_chars(v: &Vec<char>, c: char) -> (r: Vec<char>)
    ensures
        r@ == before_char(v@, c),
{
    match find_char(v, c) {
        Some(i) => {
            proof {
                crate::releases::lemma_index_of_from_bounds(v@, c, 0);
            }
            let r = slice_of(v, 0, i);
            assert(r@ =~= v@.take(i as int));
            r
        },
        None => slice_of(v, 0, v.len()),
    }
}

/// Extract the base version (before any `+sha`) and the optional SHA from a
/// resolved tag. Channel suffixes like `-nightly`, `-beta.3` are stripped at
/// the first `-`.
pub fn extract_ver_sha(tag: &str) -> (r: (String, Option<&str>))
    ensures
        r.0@ == extract_ver_sha_spec(tag@).0,
        r.1 is None ==> extract_ver_sha_spec(tag@).1 is None,
        r.1 matches Some(s) ==> extract_ver_sha_spec(tag@).1 == Some(s@),
{
    let cs = chars_of(tag);
    match find_char(&cs, '+') {
        Some(i) => {
            proof {
                crate::releases::lemma_index_of_from_bounds(cs@, '+', 0);
            }
            assert(i < cs.len());
            let ver = slice_of(&cs, 0, i);
            assert(ver@ =~= tag@.take(i as int));
            let clean = before_char_chars(&ver, '-');
            let sha = tag.substring_char(i + 1, cs.len());
            assert(tag@.subrange(i + 1, tag@.len() as int) =~= tag@.skip(i + 1));
            (string_of(&clean), Some(sha))
        },
        None => {
            let clean = before_char_chars(&cs, '-');
            (string_of(&clean), None)
        },
    }
}

/// A hash and a cached key's hash agree, or there is nothing to compare:
/// with no hash on the tag any cached match will do; with a hash on the tag
/// the cached key needs one that fuzzy-matches it.
pub open spec fn sha_ok_spec(tag_sha: Option<Seq<char>>, cached_sha: Option<Seq<char>>) -> bool {
    match (tag_sha, cached_sha) {
        (Some(ts), Some(cs)) => sha_matches_spec(cs, ts),
        (None, _) => true,
        (Some(_), None) => false,
    }
}

/// The output of `rustc --version` (`rustc 1.87.0 (17067e9ac 2025-01-13)`)
/// read as a base version and a commit hash cut to nine characters.
pub open spec fn parse_rustc_version_spec(raw: Seq<char>) -> (Seq<char>, Option<Seq<char>>) {
    let line = trim(raw);
    let rest = match strip_prefix(line, "rustc "@) {
        Some(r) => r,
        None => line,
    };
    let ver_part = match first_word(rest) {
        Some(w) => w,
        None => Seq::empty(),
    };
    let sha = match index_of(rest, '(') {
        None => None,
        Some(p) => match first_word(rest.skip(p + 1)) {
            None => None,
            Some(w) => if w.len() > 0 && all_hex(w) {
                Some(
                    w.take(
                        if w.len() < 9 {
                            w.len() as int
                        } else {
                            9
                        },
                    ),
                )
            } else {
                None
            },
        },
    };
    (before_char(ver_part, '-'), sha)
}

/// Read the output of `rustc --version` as the canonical cache key parts.
///
/// `rustc 1.87.0 (17067e9ac 2025-01-13)` gives `("1.87.0", Some("17067e9ac"))`;
/// `rustc 1.90.0-nightly (abc1234de ...)` gives `("1.90.0", Some("abc1234de"))`.
pub fn parse_rustc_version(raw: &str) -> (r: (String, Option<String>))
    ensures
        r.0@ == parse_rustc_version_spec(raw@).0,
        r.1 is None ==> parse_rustc_version_spec(raw@).1 is None,
        r.1 matches Some(s) ==> parse_rustc_version_spec(raw@).1 == Some(s@),
{
    let rc = chars_of(raw);
    let line = trim_chars(&rc);
    let key = chars_of("rustc ");
    let rest = if has_prefix(&line, &key) {
        let r = slice_of(&line, key.len(), line.len());
        assert(r@ =~= line@.skip(key@.len() as int));
        r
    } else {
        line
    };
    let ver_part = match first_word_bounds(&rest) {
        Some((a, b)) => slice_of(&rest, a, b),
        None => Vec::new(),
    };
    assert(ver_part@ =~= (match first_word(rest@) {
        Some(w) => w,
        None => Seq::<char>::empty(),
    }));
    let clean = before_char_chars(&ver_part, '-');
    let sha = match find_char(&rest, '(') {
        None => None,
        Some(p) => {
            proof {
                crate::releases::lemma_index_of_from_bounds(rest@, '(', 0);
            }
            let after = slice_of(&rest, p + 1, rest.len());
            assert(after@ =~= rest@.skip(p + 1));
            match first_word_bounds(&after) {
                None => None,
                Some((a, b)) => {
                    let w = slice_of(&after, a, b);
                    if w.len() > 0 && all_hex_chars(&w) {
                        let n = if w.len() < 9 {
                            w.len()
                        } else {
                            9
                        };
                        assert(w@.subrange(0, n as int) =~= w@.take(n as int));
                        Some(string_of_range(&w, 0, n))
                    } else {
                        None
                    }
                },
            }
        },
    };
    (string_of(&clean), sha)
}

/// The canonical cache key of an installed toolchain: `{version}+{sha}`, or the
/// version alone, from what its `rustc --version` said; the resolved tag when
/// the binary could not be queried.
pub open spec fn canonical_key_spec(tag: Seq<char>, query: Option<(Seq<char>, Option<Seq<char>>)>) -> Seq<
    char,
> {
    match query {
        None => tag,
        Some((ver, None)) => ver,
        Some((ver, Some(sha))) => ver + "+"@ + sha,
    }
}

/// The canonical cache key of an installed toolchain, from the resolved tag
/// and what its `rustc --version` gave (`None` when it could not be run).
pub fn canonical_key(tag: &str, query: Option<(String, Option<String>)>) -> (k: String)
    ensures
        k@ == canonical_key_spec(
            tag@,
            match query {
                None => None,
                Some((v, s)) => Some(
                    (
                        v@,
                        match s {
                            None => None,
                            Some(s) => Some(s@),
                        },
                    ),
                ),
            },
        ),
{
    match query {
        None => String::from_str(tag),
        Some((ver, None)) => ver,
        Some((ver, Some(sha))) => {
            let mut k = ver;
            k.append("+");
            k.append(sha.as_str());
            k
        },
    }
}

/// `skip_non_ws` runs to the first whitespace at or after `i`.
proof fn lemma_skip_non_ws_to(s: Seq<char>, i: int, j: int)
    requires
        0 <= i <= j <= s.len(),
        forall|k: int| i <= k < j ==> !crate::text::is_ws(#[trigger] s[k]),
        j == s.len() || crate::text::is_ws(s[j]),
    ensures
        crate::text::skip_non_ws(s, i) == j,
    decreases j - i,
{
    if i < j {
        lemma_skip_non_ws_to(s, i + 1, j);
    }
}

/// The version read from `rustc {w}{tail}` is the word `w` cut at its first `-`.
proof fn lemma_rustc_version_word(w: Seq<char>, tail: Seq<char>)
    requires
        w.len() > 0,
        forall|i: int| 0 <= i < w.len() ==> !crate::text::is_ws(#[trigger] w[i]),
        tail.len() > 0 ==> crate::text::is_ws(tail[0]) && !crate::text::is_ws(tail.last()),
    ensures
        parse_rustc_version_spec("rustc "@ + w + tail).0 == before_char(w, '-'),
{
    reveal_strlit("rustc ");
    let p = "rustc "@;
    let raw = p + w + tail;
    assert(raw[0] == 'r');
    if tail.len() > 0 {
        assert(raw.last() == tail.last());
    } else {
        assert(raw.last() == w[w.len() - 1]);
    }
    crate::text::lemma_trim_of_trimmed(raw);
    assert(raw.take(p.len() as int) =~= p);
    let rest = raw.skip(p.len() as int);
    assert(rest =~= w + tail);
    assert(rest[0] == w[0]);
    assert(crate::text::skip_ws(rest, 0) == 0);
    assert forall|k: int| 0 <= k < w.len() implies !crate::text::is_ws(#[trigger] rest[k]) by {
        assert(rest[k] == w[k]);
    }
    if tail.len() > 0 {
        assert(rest[w.len() as int] == tail[0]);
    }
    lemma_skip_non_ws_to(rest, 0, w.len() as int);
    assert(rest.subrange(0, w.len() as int) =~= w);
}

/// The version of a toolchain is the first word after `rustc ` up to its first
/// `-`, whatever channel suffix follows: `rustc {b}-{s}{tail}` and
/// `rustc {b}{tail}` both read as version `b`, for any `b` without `-` or
/// whitespace, any suffix `s` without whitespace, and any `tail` that starts
/// with whitespace (such as ` (def5678ab 2025-05-10)`).
pub proof fn rustc_version_drops_channel_suffix(b: Seq<char>, s: Seq<char>, tail: Seq<char>)
    requires
        b.len() > 0,
        forall|i: int| 0 <= i < b.len() ==> !crate::text::is_ws(#[trigger] b[i]) && b[i] != '-',
        forall|i: int| 0 <= i < s.len() ==> !crate::text::is_ws(#[trigger] s[i]),
        tail.len() > 0 ==> crate::text::is_ws(tail[0]) && !crate::text::is_ws(tail.last()),
    ensures
        parse_rustc_version_spec("rustc "@ + b + "-"@ + s + tail).0 == b,
        parse_rustc_version_spec("rustc "@ + b + tail).0 == b,
{
    reveal_strlit("-");
    let w = b + "-"@ + s;
    assert forall|i: int| 0 <= i < w.len() implies !crate::text::is_ws(#[trigger] w[i]) by {
        if i < b.len() {
            assert(w[i] == b[i]);
        } else if i > b.len() {
            assert(w[i] == s[i - b.len() - 1]);
        }
    }
    lemma_rustc_version_word(w, tail);
    assert("rustc "@ + b + "-"@ + s + tail =~= "rustc "@ + w + tail);
    lemma_rustc_version_word(b, tail);
    crate::releases::lemma_index_of_from_bounds(b, '-', 0);
    assert(w.take(b.len() as int) =~= b);
    crate::cache::lemma_first_index_after_prefix(b, w, '-');
}

/// The commit hash of a toolchain is the first word inside the brackets of
/// `rustc {w} ({h} {d})`, cut to nine characters, when it is made of hex
/// digits; the version is `w` up to its first `-`. Here `w` is any word
/// without whitespace or `(`, `h` any non-empty run of hex digits and `d` any
/// text without whitespace.
pub proof fn rustc_version_reads_hash(w: Seq<char>, h: Seq<char>, d: Seq<char>)
    requires
        w.len() > 0,
        forall|i: int| 0 <= i < w.len() ==> !crate::text::is_ws(#[trigger] w[i]) && w[i] != '(',
        h.len() > 0,
        all_hex(h),
        forall|i: int| 0 <= i < d.len() ==> !crate::text::is_ws(#[trigger] d[i]),
    ensures
        parse_rustc_version_spec("rustc "@ + w + " ("@ + h + " "@ + d + ")"@) == (
            before_char(w, '-'),
            Some(
                h.take(
                    if h.len() < 9 {
                        h.len() as int
                    } else {
                        9
                    },
                ),
            ),
        ),
{
    reveal_strlit(" (");
    reveal_strlit(" ");
    reveal_strlit(")");
    reveal_strlit("rustc ");
    let tail = " ("@ + h + " "@ + d + ")"@;
    assert(tail[0] == ' ');
    assert(tail.last() == ')');
    lemma_rustc_version_word(w, tail);
    let raw = "rustc "@ + w + " ("@ + h + " "@ + d + ")"@;
    assert(raw =~= "rustc "@ + w + tail);
    // The text after `rustc ` as the parser sees it.
    assert(raw[0] == 'r');
    assert(raw.last() == ')');
    crate::text::lemma_trim_of_trimmed(raw);
    assert(raw.take(6) =~= "rustc "@);
    let rest = raw.skip(6);
    assert(rest =~= w + tail);
    let p: int = w.len() as int + 1;
    assert(rest[p] == '(');
    assert forall|k: int| 0 <= k < p implies rest[k] != '(' by {
        if k < w.len() {
            assert(rest[k] == w[k]);
        } else {
            assert(rest[k] == ' ');
        }
    }
    crate::cache::lemma_index_of_from_skip(rest, '(', 0, p);
    let after = rest.skip(p + 1);
    assert(after =~= h + " "@ + d + ")"@);
    assert(after[0] == h[0]);
    assert(!crate::text::is_ws(h[0]));
    assert(crate::text::skip_ws(after, 0) == 0);
    assert forall|k: int| 0 <= k < h.len() implies !crate::text::is_ws(#[trigger] after[k]) by {
        assert(after[k] == h[k]);
        assert(is_hex(h[k]));
    }
    assert(after[h.len() as int] == ' ');
    lemma_skip_non_ws_to(after, 0, h.len() as int);
    assert(after.subrange(0, h.len() as int) =~= h);
}

/// A canonical cache key reads back as the version and hash it was made of,
/// when the version holds neither `+` nor `-`.
pub proof fn canonical_key_roundtrip(tag: Seq<char>, ver: Seq<char>, sha: Seq<char>)
    requires
        index_of(ver, '+') is None,
        index_of(ver, '-') is None,
    ensures
        extract_ver_sha_spec(canonical_key_spec(tag, Some((ver, Some(sha))))) == (ver, Some(sha)),
        cache_key_sha_spec(canonical_key_spec(tag, Some((ver, Some(sha))))) == Some(sha),
{
    reveal_strlit("+");
    let key = canonical_key_spec(tag, Some((ver, Some(sha))));
    assert(key.take(ver.len() as int) =~= ver);
    assert(key.skip(ver.len() as int + 1) =~= sha);
    crate::cache::lemma_first_index_after_prefix(ver, key, '+');
}

/// The tag of one of this program's releases without its `{name}-v` prefix
/// and any `v` before the version.
pub open spec fn strip_version_tag_spec(tag: Seq<char>, name: Seq<char>) -> Seq<char> {
    strip_all_prefix(strip_all_prefix(tag, name + "-v"@), "v"@)
}

/// `r-v0.5.0`, `v0.5.0` and `0.5.0` all give `0.5.0` for the program `r`.
pub fn strip_version_tag<'a>(tag: &'a str, name: &str) -> (r: &'a str)
    ensures
        r@ == strip_version_tag_spec(tag@, name@),
{
    let tc = chars_of(tag);
    let mut pat = chars_of(name);
    pat.push('-');
    pat.push('v');
    proof {
        reveal_strlit("-v");
        assert(pat@ =~= name@ + "-v"@);
    }
    let once = strip_all_prefix_chars(&tc, &pat);
    let twice = strip_all_prefix_chars(&once, &chars_of("v"));
    proof {
        lemma_strip_all_prefix_is_suffix(tc@, pat@);
        lemma_strip_all_prefix_is_suffix(once@, "v"@);
    }
    let from = tc.len() - twice.len();
    let r = tag.substring_char(from, tc.len());
    assert(r@ =~= twice@);
    r
}

/// What `strip_all_prefix` leaves is a suffix of its input.
pub proof fn lemma_strip_all_prefix_is_suffix(s: Seq<char>, p: Seq<char>)
    ensures
        strip_all_prefix(s, p).len() <= s.len(),
        strip_all_prefix(s, p) == s.skip(s.len() - strip_all_prefix(s, p).len()),
    decreases s.len(),
{
    if p.len() > 0 && crate::text::starts_with(s, p) {
        let t = s.skip(p.len() as int);
        lemma_strip_all_prefix_is_suffix(t, p);
        assert(t.skip(t.len() - strip_all_prefix(t, p).len()) =~= s.skip(
            s.len() - strip_all_prefix(t, p).len(),
        ));
    } else {
        assert(s.skip(0) =~= s);
    }
}

/// A release tag of the program `name`, written `{name}-v{version}`,
/// `v{version}` or `{version}` for a version of digits and dots, gives back
/// the version.
pub proof fn strip_version_tag_forms(name: Seq<char>, version: Seq<char>)
    requires
        version.len() > 0,
        forall|i: int| 0 <= i < version.len() ==> is_digit(#[trigger] version[i]) || version[i] == '.',
        is_digit(version[0]),
    ensures
        strip_version_tag_spec(name + "-v"@ + version, name) == version,
        strip_version_tag_spec("v"@ + version, name) == version,
        strip_version_tag_spec(version, name) == version,
{
    reveal_strlit("-v");
    reveal_strlit("v");
    let pat = name + "-v"@;
    let dashed = name + "-v"@ + version;
    let vee = "v"@ + version;
    assert(pat.len() > 0);
    // Text of digits and dots, possibly after one `v`, holds no `-`.
    assert(!crate::text::starts_with(version, pat)) by {
        if crate::text::starts_with(version, pat) {
            assert(version[name.len() as int] == pat[name.len() as int]);
        }
    }
    assert(!crate::text::starts_with(vee, pat)) by {
        if crate::text::starts_with(vee, pat) {
            assert(vee[name.len() as int] == pat[name.len() as int]);
            assert(vee[name.len() as int] == version[name.len() - 1]);
        }
    }
    assert(!crate::text::starts_with(version, "v"@)) by {
        if crate::text::starts_with(version, "v"@) {
            assert(version[0] == "v"@[0]);
        }
    }
    assert(dashed.subrange(0, pat.len() as int) =~= pat);
    assert(dashed.skip(pat.len() as int) =~= version);
    assert(strip_all_prefix(dashed, pat) == strip_all_prefix(version, pat));
    assert(vee.subrange(0, 1) =~= "v"@);
    assert(vee.skip(1) =~= version);
    assert(strip_all_prefix(vee, "v"@) == strip_all_prefix(version, "v"@));
}

// ---------------------------------------------------------------------------
// Choosing a cached version
// ---------------------------------------------------------------------------

/// Which cache lookup an input allows before any network access: by hash for
/// a commit hash, by version prefix (trailing `.x`/`.X` removed) for a version
/// number, none for aliases and anything else.
pub open spec fn pre_resolve_query_spec(v: Seq<char>) -> Option<(bool, Seq<char>)> {
    if is_alias_spec(v) {
        None
    } else if is_sha_input_spec(v) {
        Some((true, v))
    } else if looks_like_version_spec(v) {
        Some((false, version_prefix(v)))
    } else {
        None
    }
}

/// The cached version that a (trimmed) input selects before any network access.
pub open spec fn pre_resolve_match_spec(v: Seq<char>, es: Seq<EntryModel>) -> Option<Seq<char>> {
    if is_alias_spec(v) {
        None
    } else if is_sha_input_spec(v) {
        newest_name(es, QueryModel::Sha(v))
    } else if looks_like_version_spec(v) {
        newest_name(es, QueryModel::VersionPrefix(version_prefix(v)))
    } else {
        None
    }
}

/// The cached version that a (trimmed) input selects before any network
/// access: the newest entry whose hash matches a commit-hash input, or the
/// newest entry of the version an input like `1.87` or `1.87.x` names.
/// Aliases and other inputs select nothing here.
pub fn pre_resolve_match(v: &str, entries: &Vec<CacheEntry>) -> (r: Option<String>)
    ensures
        opt_view(r) == pre_resolve_match_spec(v@, entry_models(entries@)),
{
    if is_alias(v) {
        return None;
    }
    if is_sha_input(v) {
        return find_by_sha(entries, v);
    }
    if looks_like_version(v) {
        let c = chars_of(v);
        let once = strip_all_suffix_chars(&c, &chars_of(".x"));
        let prefix = string_of(&strip_all_suffix_chars(&once, &chars_of(".X")));
        return find_by_version_prefix(entries, prefix.as_str());
    }
    None
}

/// The cached version that matches a resolved tag.
pub open spec fn post_resolve_match_spec(tag: Seq<char>, es: Seq<EntryModel>) -> Option<Seq<char>> {
    let (ver, sha) = extract_ver_sha_spec(tag);
    match newest_name(es, QueryModel::VersionPrefix(ver)) {
        Some(n) => if sha_ok_spec(sha, cache_key_sha_spec(n)) {
            Some(n)
        } else {
            None
        },
        None => None,
    }
}

/// The cached version that matches a resolved tag: the newest entry of the
/// tag's base version, provided its hash agrees with the tag's (`sha_ok_spec`).
pub fn post_resolve_match(tag: &str, entries: &Vec<CacheEntry>) -> (r: Option<String>)
    ensures
        opt_view(r) == post_resolve_match_spec(tag@, entry_models(entries@)),
{
    let (ver_prefix, tag_sha) = extract_ver_sha(tag);
    match find_by_version_prefix(entries, ver_prefix.as_str()) {
        None => None,
        Some(cached) => {
            let ok = match (tag_sha, cache_key_sha(cached.as_str())) {
                (Some(ts), Some(cs)) => sha_matches(cs, ts),
                (None, _) => true,
                (Some(_), None) => false,
            };
            if ok {
                Some(cached)
            } else {
                None
            }
        },
    }
}

/// The cached version that `remove_version` removes for a version string.
pub open spec fn removal_target_spec(v: Seq<char>, exact_cached: bool, es: Seq<EntryModel>) -> Option<
    Seq<char>,
> {
    if exact_cached {
        Some(v)
    } else if is_sha_input_spec(v) {
        newest_name(es, QueryModel::Sha(v))
    } else {
        newest_name(es, QueryModel::VersionPrefix(v))
    }
}

/// Which cached version to remove for `v`: `v` itself when its `rustc` is
/// cached (`exact_cached`), else the newest entry whose hash matches a
/// commit-hash input, else the newest entry of the version `v`. `None` means
/// that `v` is not cached.
pub fn removal_target(v: &str, exact_cached: bool, entries: &Vec<CacheEntry>) -> (r: Option<String>)
    ensures
        opt_view(r) == removal_target_spec(v@, exact_cached, entry_models(entries@)),
{
    if exact_cached {
        Some(String::from_str(v))
    } else if is_sha_input(v) {
        find_by_sha(entries, v)
    } else {
        find_by_version_prefix(entries, v)
    }
}

/// An installed directory named by the version `v`: a directory holding
/// `rustc` whose name is `v`, or `v` followed by `+` or `.` and more.
pub open spec fn installs_version(e: EntryModel, v: Seq<char>) -> bool {
    &&& e.is_dir
    &&& e.has_rustc
    &&& e.name matches Some(n) && (n == v || crate::text::starts_with(n, v + "+"@)
        || crate::text::starts_with(n, v + "."@))
}

/// Removing a version that is not itself a cache entry and is not a commit
/// hash finds every installed directory of that version: there is a target
/// exactly when some directory installs the version, and the target is such
/// a directory, the most recently modified one. A version that is itself
/// cached is removed as given.
pub proof fn removal_finds_installed_version(v: Seq<char>, es: Seq<EntryModel>)
    ensures
        removal_target_spec(v, true, es) == Some(v),
        !is_sha_input_spec(v) ==> (removal_target_spec(v, false, es) is Some <==> exists|i: int|
            0 <= i < es.len() && installs_version(#[trigger] es[i], v)),
        !is_sha_input_spec(v) ==> (removal_target_spec(v, false, es) matches Some(n) ==> exists|
            i: int,
        |
            0 <= i < es.len() && installs_version(#[trigger] es[i], v) && es[i].name == Some(n)
                && forall|j: int|
                0 <= j < es.len() && installs_version(#[trigger] es[j], v) ==> es[j].modified
                    <= es[i].modified),
{
    let q = QueryModel::VersionPrefix(v);
    assert forall|e: EntryModel| installs_version(e, v) <==> crate::cache::is_candidate(e, q) by {}
    if exists|i: int| 0 <= i < es.len() && installs_version(#[trigger] es[i], v) {
        let i = choose|i: int| 0 <= i < es.len() && installs_version(#[trigger] es[i], v);
        assert(crate::cache::is_candidate(es[i], q));
        crate::cache::lemma_newest_exists(es, q);
    }
    if exists|k: int| crate::cache::is_newest_candidate(es, q, k) {
        let k = choose|k: int| crate::cache::is_newest_candidate(es, q, k);
        assert(installs_version(es[k], v));
        assert forall|j: int|
            0 <= j < es.len() && installs_version(#[trigger] es[j], v) implies es[j].modified
            <= es[k].modified by {
            assert(crate::cache::is_candidate(es[j], q));
        }
    }
}

/// How a cached version is shown in the removal picker.
pub open spec fn picker_item_spec(v: Seq<char>, active: Option<Seq<char>>) -> Seq<char> {
    if active == Some(v) {
        v + "  (active)"@
    } else {
        v
    }
}

/// The items of the interactive removal picker: the cached versions in
/// order, the active one marked `(active)`.
pub fn picker_items(versions: &Vec<String>, active: Option<&str>) -> (items: Vec<String>)
    ensures
        items.len() == versions.len(),
        forall|i: int|
            0 <= i < versions.len() ==> (#[trigger] items@[i])@ == picker_item_spec(
                versions@[i]@,
                match active {
                    Some(a) => Some(a@),
                    None => None,
                },
            ),
{
    let ghost act = match active {
        Some(a) => Some(a@),
        None => None,
    };
    let mut items: Vec<String> = Vec::new();
    let mut i: usize = 0;
    while i < versions.len()
        invariant
            i <= versions.len(),
            items.len() == i,
            act == match active {
                Some(a) => Some(a@),
                None => None,
            },
            forall|k: int|
                0 <= k < i ==> (#[trigger] items@[k])@ == picker_item_spec(versions@[k]@, act),
        decreases versions.len() - i,
    {
        let v = &versions[i];
        let is_active = match active {
            Some(a) => str_eq(v.as_str(), a),
            None => false,
        };
        if is_active {
            let mut item = v.clone();
            item.append("  (active)");
            items.push(item);
        } else {
            items.push(v.clone());
        }
        i = i + 1;
    }
    items
}

/// The percentage of a download that is done, when its total size is known.
pub open spec fn progress_percent_spec(downloaded: u64, total: u64) -> Option<u64> {
    if total == 0 {
        None
    } else {
        let scaled = if downloaded * 100 > u64::MAX {
            u64::MAX as int
        } else {
            downloaded * 100
        };
        Some((scaled / total as int) as u64)
    }
}

/// The percentage shown while downloading `total` bytes, after `downloaded`
/// of them: `None` when the total is unknown (zero).
pub fn progress_percent(downloaded: u64, total: u64) -> (r: Option<u64>)
    ensures
        r == progress_percent_spec(downloaded, total),
{
    if total == 0 {
        return None;
    }
    let scaled = match downloaded.checked_mul(100) {
        Some(x) => x,
        None => u64::MAX,
    };
    Some(scaled / total)
}

/// How many entries of an unpacked archive are directories.
pub open spec fn count_dirs(is_dir: Seq<bool>) -> nat
    decreases is_dir.len(),
{
    if is_dir.len() == 0 {
        0
    } else {
        count_dirs(is_dir.drop_last()) + if is_dir.last() {
            1nat
        } else {
            0nat
        }
    }
}

/// An unpacked toolchain archive must hold exactly one top-level directory.
/// Given which of the readable entries are directories, the index of that
/// directory, or the number of directories found when it is not exactly one.
pub fn single_dir_index(is_dir: &Vec<bool>) -> (r: Result<usize, usize>)
    ensures
        r is Ok <==> count_dirs(is_dir@) == 1,
        r matches Ok(i) ==> i < is_dir.len() && is_dir@[i as int],
        r matches Err(n) ==> n == count_dirs(is_dir@),
{
    let mut count: usize = 0;
    let mut first: usize = 0;
    let mut i: usize = 0;
    assert(is_dir@.take(0) =~= Seq::<bool>::empty());
    while i < is_dir.len()
        invariant
            i <= is_dir.len(),
            count <= i,
            count == count_dirs(is_dir@.take(i as int)),
            count > 0 ==> first < i && is_dir@[first as int],
        decreases is_dir.len() - i,
    {
        assert(is_dir@.take(i + 1).drop_last() =~= is_dir@.take(i as int));
        if is_dir[i] {
            if count == 0 {
                first = i;
            }
            count = count + 1;
        }
        i = i + 1;
    }
    assert(is_dir@.take(is_dir.len() as int) =~= is_dir@);
    if count == 1 {
        Ok(first)
    } else {
        Err(count)
    }
}

} // verus!
