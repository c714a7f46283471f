//! The version cache: matching cache keys, choosing among cached entries,
//! listing them, and planning their removal.
//!
//! A cache key is a version, optionally followed by `+` and a commit hash
//! (`1.87.0+17067e9ac`). The directory listing is read by the caller into
//! `CacheEntry` values, one per directory entry, in the order the listing gave.
use vstd::prelude::*;

use crate::text::{
    chars_of, find_char, has_prefix, index_of, seq_eq, slice_of, split_once, starts_with, str_eq,
    str_starts_with,
};

verus! {

// ---------------------------------------------------------------------------
// Cache keys
// ---------------------------------------------------------------------------

/// One of the two hashes is a prefix of the other.
pub open spec fn sha_matches_spec(a: Seq<char>, b: Seq<char>) -> bool {
    starts_with(a, b) || starts_with(b, a)
}

/// Returns `true` if `a` is a prefix of `b` or `b` is a prefix of `a`.
/// Used for fuzzy SHA matching between stored (short) and user-provided (long) SHAs.
pub fn sha_matches(a: &str, b: &str) -> (r: bool)
    ensures
        r == sha_matches_spec(a@, b@),
{
    str_starts_with(a, b) || str_starts_with(b, a)
}

/// The part of a cache key after its first `+`, if it has one.
pub open spec fn cache_key_sha_spec(key: Seq<char>) -> Option<Seq<char>> {
    match split_once(key, '+') {
        Some((_, sha)) => Some(sha),
        None => None,
    }
}

/// Returns the SHA portion of a cache key (the part after `+`), if any.
pub fn cache_key_sha(key: &str) -> (r: Option<&str>)
    ensures
        r is None ==> cache_key_sha_spec(key@) is None,
        r matches Some(s) ==> cache_key_sha_spec(key@) == Some(s@),
{
    let cs = chars_of(key);
    match find_char(&cs, '+') {
        None => None,
        Some(i) => {
            proof {
                crate::releases::lemma_index_of_from_bounds(cs@, '+', 0);
            }
            assert(i < cs.len());
            let sha = key.substring_char(i + 1, cs.len());
            assert(key@.subrange(i + 1, key@.len() as int) =~= key@.skip(i + 1));
            Some(sha)
        },
    }
}

/// Fuzzy hash matching does not depend on the order of the two hashes.
pub proof fn sha_matches_symmetric(a: Seq<char>, b: Seq<char>)
    ensures
        sha_matches_spec(a, b) == sha_matches_spec(b, a),
{
}

/// Every hash matches itself.
pub proof fn sha_matches_reflexive(a: Seq<char>)
    ensures
        sha_matches_spec(a, a),
{
    assert(a.subrange(0, a.len() as int) =~= a);
}

/// A hash matches any hash that extends it, such as a full commit hash.
pub proof fn sha_matches_extension(a: Seq<char>, rest: Seq<char>)
    ensures
        sha_matches_spec(a, a + rest),
        sha_matches_spec(a + rest, a),
{
    assert((a + rest).subrange(0, a.len() as int) =~= a);
}

/// The cache key made of a version and an optional commit hash.
pub open spec fn cache_key_spec(version: Seq<char>, sha: Option<Seq<char>>) -> Seq<char> {
    match sha {
        Some(s) => version + "+"@ + s,
        None => version,
    }
}

/// A cache key reads back the hash it was made with, when the version holds no `+`.
pub proof fn cache_key_sha_roundtrip(version: Seq<char>, sha: Seq<char>)
    requires
        index_of(version, '+') is None,
    ensures
        cache_key_sha_spec(cache_key_spec(version, Some(sha))) == Some(sha),
{
    reveal_strlit("+");
    let key = cache_key_spec(version, Some(sha));
    assert(key.take(version.len() as int) =~= version);
    assert(key.skip(version.len() as int + 1) =~= sha);
    lemma_first_index_after_prefix(version, key, '+');
}

/// Searching `key` for `c` stops at `prefix.len()` when `key` continues
/// `prefix` with `c` and `prefix` holds no `c`.
pub proof fn lemma_first_index_after_prefix(prefix: Seq<char>, key: Seq<char>, c: char)
    requires
        index_of(prefix, c) is None,
        prefix.len() < key.len(),
        key.take(prefix.len() as int) == prefix,
        key[prefix.len() as int] == c,
    ensures
        index_of(key, c) == Some(prefix.len() as int),
{
    crate::releases::lemma_index_of_from_bounds(prefix, c, 0);
    assert forall|k: int| 0 <= k < prefix.len() implies key[k] != c by {
        assert(key.take(prefix.len() as int)[k] == key[k]);
    }
    lemma_index_of_from_skip(key, c, 0, prefix.len() as int);
}

/// `index_of_from` passes over positions that do not hold `c`.
pub proof fn lemma_index_of_from_skip(s: Seq<char>, c: char, i: int, j: int)
    requires
        0 <= i <= j < s.len(),
        s[j] == c,
        forall|k: int| i <= k < j ==> s[k] != c,
    ensures
        crate::text::index_of_from(s, c, i) == Some(j),
    decreases j - i,
{
    if i < j {
        lemma_index_of_from_skip(s, c, i + 1, j);
    }
}

// ---------------------------------------------------------------------------
// Directory entries
// ---------------------------------------------------------------------------

/// One entry of the cache directory, as read from the file system.
#[derive(Debug)]
pub struct CacheEntry {
    /// The entry's file name, or `None` when it is not valid Unicode.
    pub name: Option<String>,
    /// The entry is a directory (symbolic links followed).
    pub is_dir: bool,
    /// The entry holds the version's `rustc` binary (see `layout::is_cached`).
    pub has_rustc: bool,
    /// Modification time in nanoseconds after the Unix epoch (negative before
    /// it); the epoch itself when the time could not be read.
    pub modified: i128,
}

/// The model of a cache entry.
pub struct EntryModel {
    pub name: Option<Seq<char>>,
    pub is_dir: bool,
    pub has_rustc: bool,
    pub modified: int,
}

impl View for CacheEntry {
    type V = EntryModel;

    open spec fn view(&self) -> EntryModel {
        EntryModel {
            name: match self.name {
                Some(n) => Some(n@),
                None => None,
            },
            is_dir: self.is_dir,
            has_rustc: self.has_rustc,
            modified: self.modified as int,
        }
    }
}

pub open spec fn entry_models(entries: Seq<CacheEntry>) -> Seq<EntryModel> {
    entries.map_values(|e: CacheEntry| e@)
}

/// What a lookup looks for in the names of cached versions.
pub enum EntryQuery<'a> {
    /// The name is the version, or the version followed by `+` or `.`.
    VersionPrefix(&'a str),
    /// The name's commit hash fuzzy-matches this hash.
    Sha(&'a str),
}

/// The model of a lookup.
pub enum QueryModel {
    VersionPrefix(Seq<char>),
    Sha(Seq<char>),
}

impl<'a> View for EntryQuery<'a> {
    type V = QueryModel;

    open spec fn view(&self) -> QueryModel {
        match self {
            EntryQuery::VersionPrefix(p) => QueryModel::VersionPrefix(p@),
            EntryQuery::Sha(s) => QueryModel::Sha(s@),
        }
    }
}

/// `name` is `prefix`, or starts with `"{prefix}+"` or `"{prefix}."`.
pub open spec fn version_prefix_match(name: Seq<char>, prefix: Seq<char>) -> bool {
    ||| name == prefix
    ||| starts_with(name, prefix + "+"@)
    ||| starts_with(name, prefix + "."@)
}

/// `name` has a commit hash, and it fuzzy-matches `sha`.
pub open spec fn sha_key_match(name: Seq<char>, sha: Seq<char>) -> bool {
    match cache_key_sha_spec(name) {
        Some(c) => sha_matches_spec(c, sha),
        None => false,
    }
}

pub open spec fn query_matches(q: QueryModel, name: Seq<char>) -> bool {
    match q {
        QueryModel::VersionPrefix(p) => version_prefix_match(name, p),
        QueryModel::Sha(s) => sha_key_match(name, s),
    }
}

/// A usable match: a directory with a readable name that matches and holds `rustc`.
pub open spec fn is_candidate(e: EntryModel, q: QueryModel) -> bool {
    &&& e.is_dir
    &&& e.name is Some
    &&& query_matches(q, e.name->0)
    &&& e.has_rustc
}

/// Entry `i` is a candidate modified no earlier than any other candidate,
/// and strictly later than every candidate before it.
pub open spec fn is_newest_candidate(es: Seq<EntryModel>, q: QueryModel, i: int) -> bool {
    &&& 0 <= i < es.len()
    &&& is_candidate(es[i], q)
    &&& forall|j: int| 0 <= j < es.len() && is_candidate(#[trigger] es[j], q) ==> es[j].modified <= es[i].modified
    &&& forall|j: int| 0 <= j < i && is_candidate(#[trigger] es[j], q) ==> es[j].modified < es[i].modified
}

/// The name of the most recently modified candidate, the first listed among
/// equally recent ones; `None` when there is no candidate.
pub open spec fn newest_name(es: Seq<EntryModel>, q: QueryModel) -> Option<Seq<char>> {
    if exists|i: int| is_newest_candidate(es, q, i) {
        es[choose|i: int| is_newest_candidate(es, q, i)].name
    } else {
        None
    }
}

/// At most one entry is the newest candidate.
pub proof fn lemma_newest_candidate_unique(es: Seq<EntryModel>, q: QueryModel, i: int, j: int)
    requires
        is_newest_candidate(es, q, i),
        is_newest_candidate(es, q, j),
    ensures
        i == j,
{
    if i < j {
        assert(is_candidate(es[i], q));
    } else if j < i {
        assert(is_candidate(es[j], q));
    }
}

/// Among the first `k` entries, one that is the newest candidate of them.
proof fn lemma_best_upto(es: Seq<EntryModel>, q: QueryModel, k: int) -> (b: int)
    requires
        0 <= k <= es.len(),
        exists|j: int| 0 <= j < k && is_candidate(#[trigger] es[j], q),
    ensures
        0 <= b < k,
        is_candidate(es[b], q),
        forall|j: int| 0 <= j < k && is_candidate(#[trigger] es[j], q) ==> es[j].modified <= es[b].modified,
        forall|j: int| 0 <= j < b && is_candidate(#[trigger] es[j], q) ==> es[j].modified < es[b].modified,
    decreases k,
{
    if exists|j: int| 0 <= j < k - 1 && is_candidate(#[trigger] es[j], q) {
        let b0 = lemma_best_upto(es, q, k - 1);
        if is_candidate(es[k - 1], q) && es[k - 1].modified > es[b0].modified {
            k - 1
        } else {
            b0
        }
    } else {
        k - 1
    }
}

/// When some entry is a candidate, one of them is the newest.
pub proof fn lemma_newest_exists(es: Seq<EntryModel>, q: QueryModel)
    requires
        exists|j: int| 0 <= j < es.len() && is_candidate(#[trigger] es[j], q),
    ensures
        exists|i: int| is_newest_candidate(es, q, i),
{
    let b = lemma_best_upto(es, q, es.len() as int);
    assert(is_newest_candidate(es, q, b));
}

pub open spec fn opt_view(o: Option<String>) -> Option<Seq<char>> {
    match o {
        Some(s) => Some(s@),
        None => None,
    }
}

fn with_suffix(p: &Vec<char>, c: char) -> (r: Vec<char>)
    ensures
        r@ == p@.push(c),
{
    let mut r = slice_of(p, 0, p.len());
    assert(p@.subrange(0, p@.len() as int) =~= p@);
    r.push(c);
    r
}

fn name_matches(q: &EntryQuery, name: &str) -> (r: bool)
    ensures
        r == query_matches(q@, name@),
{
    match q {
        EntryQuery::VersionPrefix(p) => {
            let n = chars_of(name);
            let pc = chars_of(p);
            let plus = with_suffix(&pc, '+');
            let dot = with_suffix(&pc, '.');
            proof {
                reveal_strlit("+");
                reveal_strlit(".");
                assert(plus@ =~= p@ + "+"@);
                assert(dot@ =~= p@ + "."@);
            }
            seq_eq(&n, &pc) || has_prefix(&n, &plus) || has_prefix(&n, &dot)
        },
        EntryQuery::Sha(s) => match cache_key_sha(name) {
            Some(c) => sha_matches(c, s),
            None => false,
        },
    }
}

fn entry_is_candidate(e: &CacheEntry, q: &EntryQuery) -> (r: bool)
    ensures
        r == is_candidate(e@, q@),
{
    if !e.is_dir {
        return false;
    }
    match &e.name {
        None => false,
        Some(n) => name_matches(q, n.as_str()) && e.has_rustc,
    }
}

/// The name of the newest candidate entry: the first one with the latest
/// modification time.
pub fn newest_match(entries: &Vec<CacheEntry>, q: &EntryQuery) -> (r: Option<String>)
    ensures
        opt_view(r) == newest_name(entry_models(entries@), q@),
        r is None <==> forall|i: int|
            0 <= i < entries.len() ==> !is_candidate(#[trigger] entry_models(entries@)[i], q@),
        r matches Some(n) ==> exists|i: int|
            is_newest_candidate(entry_models(entries@), q@, i) && #[trigger] entry_models(
                entries@,
            )[i].name == Some(n@),
{
    let ghost es = entry_models(entries@);
    let mut best: Option<usize> = None;
    let mut i: usize = 0;
    while i < entries.len()
        invariant
            i <= entries.len(),
            es == entry_models(entries@),
            es.len() == entries.len(),
            best is None ==> forall|j: int| 0 <= j < i ==> !is_candidate(#[trigger] es[j], q@),
            best matches Some(b) ==> {
                &&& b < i
                &&& is_candidate(es[b as int], q@)
                &&& forall|j: int|
                    0 <= j < i && is_candidate(#[trigger] es[j], q@) ==> es[j].modified
                        <= es[b as int].modified
                &&& forall|j: int|
                    0 <= j < b && is_candidate(#[trigger] es[j], q@) ==> es[j].modified
                        < es[b as int].modified
            },
        decreases entries.len() - i,
    {
        assert(es[i as int] == entries@[i as int]@);
        if entry_is_candidate(&entries[i], q) {
            let newer = match best {
                None => true,
                Some(b) => {
                    assert(es[b as int] == entries@[b as int]@);
                    entries[i].modified > entries[b].modified
                },
            };
            if newer {
                best = Some(i);
            }
        }
        i = i + 1;
    }
    match best {
        None => {
            assert(!exists|k: int| is_newest_candidate(es, q@, k));
            None
        },
        Some(b) => {
            assert(es[b as int] == entries@[b as int]@);
            assert(is_newest_candidate(es, q@, b as int));
            proof {
                let k = choose|k: int| is_newest_candidate(es, q@, k);
                lemma_newest_candidate_unique(es, q@, k, b as int);
            }
            match &entries[b].name {
                Some(n) => Some(n.clone()),
                None => None,
            }
        },
    }
}

/// Find a cached version matching the given version prefix.
///
/// A match occurs when the cache-directory name equals `prefix` exactly, starts
/// with `"{prefix}+"` (exact version with SHA), or starts with `"{prefix}."`
/// (partial version, e.g. `"1.87"` matches `"1.87.0+abc"`), and the entry is a
/// directory that holds `rustc`. If multiple entries match, the most recently
/// modified is returned (the first listed among equally recent ones).
pub fn find_by_version_prefix(entries: &Vec<CacheEntry>, prefix: &str) -> (r: Option<String>)
    ensures
        opt_view(r) == newest_name(entry_models(entries@), QueryModel::VersionPrefix(prefix@)),
        r is None <==> forall|i: int|
            0 <= i < entries.len() ==> !is_candidate(
                #[trigger] entry_models(entries@)[i],
                QueryModel::VersionPrefix(prefix@),
            ),
        r matches Some(n) ==> exists|i: int|
            is_newest_candidate(entry_models(entries@), QueryModel::VersionPrefix(prefix@), i)
                && #[trigger] entry_models(entries@)[i].name == Some(n@),
{
    newest_match(entries, &EntryQuery::VersionPrefix(prefix))
}

/// Find a cached version whose SHA component fuzzy-matches the given SHA.
///
/// The SHA component is the part after `+` in the cache key.
/// If multiple entries match, the most recently modified is returned (the
/// first listed among equally recent ones).
pub fn find_by_sha(entries: &Vec<CacheEntry>, sha: &str) -> (r: Option<String>)
    ensures
        opt_view(r) == newest_name(entry_models(entries@), QueryModel::Sha(sha@)),
        r is None <==> forall|i: int|
            0 <= i < entries.len() ==> !is_candidate(
                #[trigger] entry_models(entries@)[i],
                QueryModel::Sha(sha@),
            ),
        r matches Some(n) ==> exists|i: int|
            is_newest_candidate(entry_models(entries@), QueryModel::Sha(sha@), i)
                && #[trigger] entry_models(entries@)[i].name == Some(n@),
{
    newest_match(entries, &EntryQuery::Sha(sha))
}

// ---------------------------------------------------------------------------
// Listing
// ---------------------------------------------------------------------------

/// `a` comes strictly before `b` in the order of `str::cmp`: character by
/// character, a proper prefix first.
pub open spec fn lex_lt(a: Seq<char>, b: Seq<char>) -> bool
    decreases a.len(),
{
    if a.len() == 0 {
        b.len() > 0
    } else if b.len() == 0 {
        false
    } else if a[0] != b[0] {
        a[0] < b[0]
    } else {
        lex_lt(a.drop_first(), b.drop_first())
    }
}

pub proof fn lemma_lex_lt_transitive(a: Seq<char>, b: Seq<char>, c: Seq<char>)
    requires
        lex_lt(a, b),
        lex_lt(b, c),
    ensures
        lex_lt(a, c),
    decreases a.len(),
{
    if a.len() > 0 && b.len() > 0 && c.len() > 0 && a[0] == b[0] && b[0] == c[0] {
        lemma_lex_lt_transitive(a.drop_first(), b.drop_first(), c.drop_first());
    }
}

pub proof fn lemma_lex_lt_irreflexive(a: Seq<char>)
    ensures
        !lex_lt(a, a),
    decreases a.len(),
{
    if a.len() > 0 {
        lemma_lex_lt_irreflexive(a.drop_first());
    }
}

/// Two different texts are ordered one way or the other.
pub proof fn lemma_lex_lt_total(a: Seq<char>, b: Seq<char>)
    requires
        a != b,
    ensures
        lex_lt(a, b) || lex_lt(b, a),
    decreases a.len(),
{
    if a.len() > 0 && b.len() > 0 && a[0] == b[0] {
        if a.drop_first() == b.drop_first() {
            assert(a =~= seq![a[0]] + a.drop_first());
            assert(b =~= seq![b[0]] + b.drop_first());
        }
        lemma_lex_lt_total(a.drop_first(), b.drop_first());
    } else if a.len() == 0 && b.len() == 0 {
        assert(a =~= b);
    }
}

/// A list sorted newest first that holds no name twice is in strictly
/// descending order.
pub proof fn lemma_sorted_desc_strict(r: Seq<Seq<char>>, listed: Seq<Seq<char>>)
    requires
        sorted_desc(r),
        r.to_multiset() == listed.to_multiset(),
        listed.no_duplicates(),
    ensures
        forall|i: int, j: int| 0 <= i < j < r.len() ==> lex_lt(#[trigger] r[j], #[trigger] r[i]),
{
    listed.lemma_multiset_has_no_duplicates();
    r.lemma_multiset_has_no_duplicates_conv();
    assert forall|i: int, j: int| 0 <= i < j < r.len() implies lex_lt(
        #[trigger] r[j],
        #[trigger] r[i],
    ) by {
        assert(r[i] != r[j]);
        lemma_lex_lt_total(r[j], r[i]);
    }
}

/// No element of `s` is ordered before a later one: newest (greatest) first.
pub open spec fn sorted_desc(s: Seq<Seq<char>>) -> bool {
    forall|i: int, j: int| 0 <= i < j < s.len() ==> !lex_lt(#[trigger] s[i], #[trigger] s[j])
}

/// An entry that `cached_versions` lists: a directory with a readable, non-empty name.
pub open spec fn is_listed(e: EntryModel) -> bool {
    e.is_dir && e.name is Some && e.name->0.len() > 0
}

/// The names of the listed entries, in directory order.
pub open spec fn listed_names(es: Seq<EntryModel>) -> Seq<Seq<char>>
    decreases es.len(),
{
    if es.len() == 0 {
        Seq::empty()
    } else if is_listed(es.last()) {
        listed_names(es.drop_last()).push(es.last().name->0)
    } else {
        listed_names(es.drop_last())
    }
}

fn lex_less(a: &Vec<char>, b: &Vec<char>) -> (r: bool)
    ensures
        r == lex_lt(a@, b@),
{
    let mut i: usize = 0;
    assert(a@.skip(0) =~= a@);
    assert(b@.skip(0) =~= b@);
    while i < a.len() && i < b.len() && a[i] == b[i]
        invariant
            i <= a.len(),
            i <= b.len(),
            lex_lt(a@, b@) == lex_lt(a@.skip(i as int), b@.skip(i as int)),
        decreases a.len() - i,
    {
        assert(a@.skip(i as int).drop_first() =~= a@.skip(i + 1));
        assert(b@.skip(i as int).drop_first() =~= b@.skip(i + 1));
        i = i + 1;
    }
    if i == a.len() {
        i < b.len()
    } else if i == b.len() {
        false
    } else {
        a[i] < b[i]
    }
}

pub open spec fn string_views(v: Seq<String>) -> Seq<Seq<char>> {
    v.map_values(|s: String| s@)
}

proof fn lemma_insert_multiset(s: Seq<Seq<char>>, p: int, x: Seq<char>)
    requires
        0 <= p <= s.len(),
    ensures
        s.insert(p, x).to_multiset() =~= s.to_multiset().insert(x),
{
    broadcast use vstd::seq_lib::group_to_multiset_ensures;

    let t = s.insert(p, x);
    assert(t.remove(p) =~= s);
    assert(t[p] == x);
    assert(t.to_multiset().count(x) > 0);
    assert(t.remove(p).to_multiset() =~= t.to_multiset().remove(x));
}

/// Return all locally cached version tags, newest first: the readable,
/// non-empty names of the directories in the cache, in descending order.
pub fn cached_versions(entries: &Vec<CacheEntry>) -> (r: Vec<String>)
    ensures
        sorted_desc(string_views(r@)),
        string_views(r@).to_multiset() == listed_names(entry_models(entries@)).to_multiset(),
        listed_names(entry_models(entries@)).no_duplicates() ==> forall|i: int, j: int|
            0 <= i < j < r.len() ==> lex_lt(
                #[trigger] string_views(r@)[j],
                #[trigger] string_views(r@)[i],
            ),
{
    let ghost es = entry_models(entries@);
    let mut out: Vec<String> = Vec::new();
    let mut keys: Vec<Vec<char>> = Vec::new();
    let mut i: usize = 0;
    assert(es.take(0) =~= Seq::<EntryModel>::empty());
    assert(string_views(out@) =~= Seq::<Seq<char>>::empty());
    while i < entries.len()
        invariant
            i <= entries.len(),
            es == entry_models(entries@),
            es.len() == entries.len(),
            keys.len() == out.len(),
            forall|k: int| 0 <= k < out.len() ==> (#[trigger] keys@[k])@ == out@[k]@,
            sorted_desc(string_views(out@)),
            string_views(out@).to_multiset() == listed_names(es.take(i as int)).to_multiset(),
        decreases entries.len() - i,
    {
        assert(es.take(i + 1).drop_last() =~= es.take(i as int));
        assert(es[i as int] == entries@[i as int]@);
        let e = &entries[i];
        let ghost prev = string_views(out@);
        proof {
            broadcast use vstd::seq_lib::group_to_multiset_ensures;

            let t = es.take(i + 1);
            assert(t.last() == es[i as int]);
            assert(t.drop_last() =~= es.take(i as int));
            if is_listed(es[i as int]) {
                assert(listed_names(t) == listed_names(es.take(i as int)).push(
                    es[i as int].name->0,
                ));
            } else {
                assert(listed_names(t) == listed_names(es.take(i as int)));
            }
        }
        if e.is_dir {
            match &e.name {
                Some(n) => {
                    let key = chars_of(n.as_str());
                    if key.len() > 0 {
                        let ghost before = string_views(out@);
                        let mut p: usize = 0;
                        while p < out.len() && !lex_less(&keys[p], &key)
                            invariant
                                p <= out.len(),
                                keys.len() == out.len(),
                                before == string_views(out@),
                                forall|k: int| 0 <= k < out.len() ==> (#[trigger] keys@[k])@ == out@[k]@,
                                forall|k: int| 0 <= k < p ==> !lex_lt(#[trigger] before[k], key@),
                            decreases out.len() - p,
                        {
                            p = p + 1;
                        }
                        assert(p < out.len() ==> lex_lt(before[p as int], key@));
                        out.insert(p, n.clone());
                        keys.insert(p, key);
                        let ghost after = string_views(out@);
                        assert(after =~= before.insert(p as int, n@));
                        proof {
                            lemma_insert_multiset(before, p as int, n@);
                            assert forall|a: int, b: int| 0 <= a < b < after.len() implies !lex_lt(
                                #[trigger] after[a],
                                #[trigger] after[b],
                            ) by {
                                if a < p && b == p {
                                } else if a == p && b > p {
                                    if lex_lt(n@, after[b]) {
                                        lemma_lex_lt_transitive(before[p as int], n@, after[b]);
                                        assert(after[b] == before[b - 1]);
                                        assert(before[p as int] == after[p + 1]);
                                        if b - 1 > p {
                                            assert(!lex_lt(before[p as int], before[b - 1]));
                                        } else {
                                            lemma_lex_lt_irreflexive(before[p as int]);
                                        }
                                    }
                                } else if a < p && b > p {
                                    assert(after[b] == before[b - 1]);
                                } else if a > p {
                                    assert(after[a] == before[a - 1]);
                                    assert(after[b] == before[b - 1]);
                                }
                            }
                        }
                    }
                },
                None => {},
            }
        }
        i = i + 1;
    }
    assert(es.take(entries.len() as int) =~= es);
    proof {
        if listed_names(es).no_duplicates() {
            lemma_sorted_desc_strict(string_views(out@), listed_names(es));
        }
    }
    out
}

// ---------------------------------------------------------------------------
// Pruning
// ---------------------------------------------------------------------------

/// What pruning does with one entry of the cache directory.
#[derive(Debug, Clone, Copy, PartialEq, Eq, Structural)]
pub enum PruneStep {
    /// The entry is the active version and is kept (no `--force`).
    SkipActive,
    /// The entry is a directory and is removed.
    Remove,
    /// The entry is not a directory and is left alone.
    Ignore,
}

/// The entry's name as pruning reports it: empty when it is not valid Unicode.
pub open spec fn display_name(e: EntryModel) -> Seq<char> {
    match e.name {
        Some(n) => n,
        None => Seq::empty(),
    }
}

/// What pruning does with entry `e` when `active` is the active version.
pub open spec fn prune_step_spec(e: EntryModel, active: Option<Seq<char>>, force: bool) -> PruneStep {
    if !force && active == Some(display_name(e)) {
        PruneStep::SkipActive
    } else if e.is_dir {
        PruneStep::Remove
    } else {
        PruneStep::Ignore
    }
}

/// Remove all cached versions except the currently active one.
/// When `force` is `true`, all versions including the active one are removed.
///
/// Gives one step per entry of the cache directory, in order; the caller
/// carries them out.
pub fn prune_plan(entries: &Vec<CacheEntry>, active: Option<&str>, force: bool) -> (r: Vec<
    PruneStep,
>)
    ensures
        r.len() == entries.len(),
        forall|i: int|
            0 <= i < entries.len() ==> r@[i] == prune_step_spec(
                #[trigger] entry_models(entries@)[i],
                match active {
                    Some(a) => Some(a@),
                    None => None,
                },
                force,
            ),
{
    let ghost es = entry_models(entries@);
    let ghost act = match active {
        Some(a) => Some(a@),
        None => None,
    };
    let mut r: Vec<PruneStep> = Vec::new();
    let mut i: usize = 0;
    while i < entries.len()
        invariant
            i <= entries.len(),
            es == entry_models(entries@),
            es.len() == entries.len(),
            act == match active {
                Some(a) => Some(a@),
                None => None,
            },
            r.len() == i,
            forall|k: int| 0 <= k < i ==> r@[k] == prune_step_spec(#[trigger] es[k], act, force),
        decreases entries.len() - i,
    {
        assert(es[i as int] == entries@[i as int]@);
        let e = &entries[i];
        let is_active = match active {
            None => false,
            Some(a) => match &e.name {
                Some(n) => str_eq(n.as_str(), a),
                None => str_eq("", a),
            },
        };
        proof {
            reveal_strlit("");
            assert(""@ =~= Seq::<char>::empty());
            match active {
                None => {},
                Some(a) => {
                    assert(act == Some(a@));
                    assert(is_active == (a@ == display_name(es[i as int])));
                },
            }
            assert(is_active == (act == Some(display_name(es[i as int]))));
        }
        let step = if !force && is_active {
            PruneStep::SkipActive
        } else if e.is_dir {
            PruneStep::Remove
        } else {
            PruneStep::Ignore
        };
        r.push(step);
        i = i + 1;
    }
    r
}

/// Without `force`, pruning never removes the active version.
pub proof fn prune_keeps_active(e: EntryModel, active: Seq<char>)
    requires
        display_name(e) == active,
    ensures
        prune_step_spec(e, Some(active), false) == PruneStep::SkipActive,
{
}

/// With `force`, pruning removes every directory, the active one included.
pub proof fn prune_force_removes_every_directory(e: EntryModel, active: Option<Seq<char>>)
    requires
        e.is_dir,
    ensures
        prune_step_spec(e, active, true) == PruneStep::Remove,
{
}

/// Without `force`, every directory other than the active version is removed.
pub proof fn prune_removes_inactive(e: EntryModel, active: Option<Seq<char>>)
    requires
        e.is_dir,
        active != Some(display_name(e)),
    ensures
        prune_step_spec(e, active, false) == PruneStep::Remove,
{
}

} // verus!
