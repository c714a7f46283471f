//! The decisions of installing, fetching and running a toolchain, as a state
//! machine. The caller performs each action (network, file system, running
//! `rustc`) and reports what came of it as the next event.
//!
//! 1. A version number or commit hash that matches a cached version is used
//!    at once, with no network access.
//! 2. Otherwise the input is resolved to a tag (through a channel manifest or
//!    the release list when needed).
//! 3. A cached version that matches the resolved tag is used.
//! 4. Otherwise the toolchain is downloaded unless the tag itself is cached
//!    (when only fetching, a cached tag ends the work).
//! 5. The installed `rustc` is asked for its version, which gives the
//!    canonical cache key; the cache entry is renamed to it when it differs.
use vstd::prelude::*;

use crate::cache::{entry_models, CacheEntry};
use crate::install::{
    canonical_key, canonical_key_spec, parse_rustc_version, parse_rustc_version_spec,
    post_resolve_match, post_resolve_match_spec, pre_resolve_match, pre_resolve_match_spec,
};
use crate::platform::{download_url, download_url_spec};
use crate::releases::{
    release_views, releases_url, releases_url_spec, resolve_from, resolve_from_spec, resolve_tag,
    resolve_tag_spec, tag_from_manifest, tag_from_manifest_spec, Channel, GhRelease,
    ReleaseError, ReleaseFailure, TagRequestOf,
};
use crate::text::{chars_of, seq_eq, string_of, trim, trim_chars};

verus! {

/// What the caller does with the toolchain in the end.
#[derive(Debug, Clone, Copy, PartialEq, Eq, Structural)]
pub enum FlowMode {
    /// Install and activate.
    Install,
    /// Only bring it into the cache.
    Fetch,
    /// Run its `rustc`.
    Run,
}

/// How many releases are fetched to resolve a version against the release list.
pub const RELEASES_PER_PAGE: u32 = 100;

/// Where the work stands.
#[derive(Debug)]
pub enum FlowState {
    Begin,
    AwaitManifest { channel: Channel },
    AwaitReleases { version: String },
    AwaitListing { tag: String },
    AwaitCacheCheck { tag: String },
    AwaitDownload { tag: String },
    AwaitQuery { tag: String },
    AwaitRename { key: String },
    Done,
}

/// What the caller reports.
#[derive(Debug)]
pub enum FlowEvent {
    /// The work starts: the user's input and the listing of the cache.
    Start { input: String, entries: Vec<CacheEntry> },
    /// The text of the requested channel manifest.
    ManifestFetched { body: String },
    /// The requested release list.
    ReleasesFetched { releases: Vec<GhRelease> },
    /// A fresh listing of the cache.
    Listed { entries: Vec<CacheEntry> },
    /// Whether the requested tag's `rustc` is in the cache.
    CacheChecked { cached: bool },
    /// The requested toolchain has been downloaded and installed in the cache.
    Downloaded,
    /// What `rustc --version` printed, or `None` when it could not be run.
    Queried { output: Option<String> },
    /// The requested rename of a cache entry is done.
    Renamed,
}

/// How the work ended.
#[derive(Debug)]
pub enum FlowOutcome {
    /// A cached version that matches the input was found (for fetching: the
    /// version is already cached).
    Cached { key: String },
    /// The toolchain is in the cache under `key`.
    Ready { key: String },
    /// The input did not resolve to a tag.
    Failed(ReleaseError),
    /// An event came that the current state does not wait for.
    OutOfOrder,
}

/// What the caller does next.
#[derive(Debug)]
pub enum FlowAction {
    /// Fetch the manifest of the channel (see `releases::manifest_url`).
    FetchManifest { channel: Channel },
    /// Fetch the release list from this URL.
    FetchReleases { url: String },
    /// List the cache directory again.
    ListCache,
    /// Tell whether the `rustc` of `tag` is cached.
    CheckCache { tag: String },
    /// Download the toolchain `tag` from `url` and install it in the cache.
    Download { tag: String, url: String },
    /// Run the cached `rustc` of `tag` with `--version`.
    QueryBinary { tag: String },
    /// Rename the cache entry `from` to `to` (when `from` exists and `to` does not).
    Rename { from: String, to: String },
    /// The work is over.
    Finish(FlowOutcome),
}

/// The step taken once an input has been classified.
pub open spec fn request_step(
    req: TagRequestOf<Seq<char>>,
    ns: FlowState,
    a: FlowAction,
) -> bool {
    match req {
        TagRequestOf::Ready(r) => resolved_step(r, ns, a),
        TagRequestOf::FromManifest(c) => {
            &&& ns == FlowState::AwaitManifest { channel: c }
            &&& a == FlowAction::FetchManifest { channel: c }
        },
        TagRequestOf::FromReleases(v) => {
            &&& ns matches FlowState::AwaitReleases { version } && version@ == v
            &&& a matches FlowAction::FetchReleases { url } && url@ == releases_url_spec(
                RELEASES_PER_PAGE,
            )
        },
    }
}

/// The step taken once the tag is known, or known not to exist.
pub open spec fn resolved_step(
    r: Result<Seq<char>, ReleaseFailure<Seq<char>>>,
    ns: FlowState,
    a: FlowAction,
) -> bool {
    match r {
        Ok(t) => {
            &&& ns matches FlowState::AwaitListing { tag } && tag@ == t
            &&& a == FlowAction::ListCache
        },
        Err(e) => {
            &&& ns == FlowState::Done
            &&& a matches FlowAction::Finish(FlowOutcome::Failed(f)) && f@ == e
        },
    }
}

/// The step that ends the work with `outcome`.
pub open spec fn finish_step(ns: FlowState, a: FlowAction, cached: bool, key: Seq<char>) -> bool {
    &&& ns == FlowState::Done
    &&& if cached {
        a matches FlowAction::Finish(FlowOutcome::Cached { key: k }) && k@ == key
    } else {
        a matches FlowAction::Finish(FlowOutcome::Ready { key: k }) && k@ == key
    }
}

/// What `step` does: from the state `s` and the event `e`, the next state
/// `ns` and the action `a`.
pub open spec fn step_spec(
    mode: FlowMode,
    target: Seq<char>,
    s: FlowState,
    e: FlowEvent,
    ns: FlowState,
    a: FlowAction,
) -> bool {
    match (s, e) {
        (FlowState::Begin, FlowEvent::Start { input, entries }) => {
            let v = trim(input@);
            match pre_resolve_match_spec(v, entry_models(entries@)) {
                Some(n) => finish_step(ns, a, true, n),
                None => request_step(resolve_tag_spec(v), ns, a),
            }
        },
        (FlowState::AwaitManifest { channel }, FlowEvent::ManifestFetched { body }) => resolved_step(
            tag_from_manifest_spec(body@, channel),
            ns,
            a,
        ),
        (FlowState::AwaitReleases { version }, FlowEvent::ReleasesFetched { releases }) => resolved_step(
            resolve_from_spec(version@, release_views(releases@)),
            ns,
            a,
        ),
        (FlowState::AwaitListing { tag }, FlowEvent::Listed { entries }) => match post_resolve_match_spec(
            tag@,
            entry_models(entries@),
        ) {
            Some(n) => finish_step(ns, a, true, n),
            None => {
                &&& ns matches FlowState::AwaitCacheCheck { tag: t } && t@ == tag@
                &&& a matches FlowAction::CheckCache { tag: t } && t@ == tag@
            },
        },
        (FlowState::AwaitCacheCheck { tag }, FlowEvent::CacheChecked { cached }) => if cached {
            if mode == FlowMode::Fetch {
                finish_step(ns, a, true, tag@)
            } else {
                &&& ns matches FlowState::AwaitQuery { tag: t } && t@ == tag@
                &&& a matches FlowAction::QueryBinary { tag: t } && t@ == tag@
            }
        } else {
            &&& ns matches FlowState::AwaitDownload { tag: t } && t@ == tag@
            &&& a matches FlowAction::Download { tag: t, url } && t@ == tag@ && url@
                == download_url_spec(tag@, target)
        },
        (FlowState::AwaitDownload { tag }, FlowEvent::Downloaded) => {
            &&& ns matches FlowState::AwaitQuery { tag: t } && t@ == tag@
            &&& a matches FlowAction::QueryBinary { tag: t } && t@ == tag@
        },
        (FlowState::AwaitQuery { tag }, FlowEvent::Queried { output }) => {
            let key = match output {
                None => tag@,
                Some(o) => canonical_key_spec(tag@, Some(parse_rustc_version_spec(o@))),
            };
            if key != tag@ {
                &&& ns matches FlowState::AwaitRename { key: k } && k@ == key
                &&& a matches FlowAction::Rename { from, to } && from@ == tag@ && to@ == key
            } else {
                finish_step(ns, a, false, tag@)
            }
        },
        (FlowState::AwaitRename { key }, FlowEvent::Renamed) => finish_step(ns, a, false, key@),
        _ => {
            &&& ns == FlowState::Done
            &&& a == FlowAction::Finish(FlowOutcome::OutOfOrder)
        },
    }
}

fn resolved(r: Result<String, ReleaseError>) -> (out: (FlowState, FlowAction))
    ensures
        resolved_step(
            match r {
                Ok(t) => Ok(t@),
                Err(e) => Err(e@),
            },
            out.0,
            out.1,
        ),
{
    match r {
        Ok(t) => (FlowState::AwaitListing { tag: t }, FlowAction::ListCache),
        Err(e) => (FlowState::Done, FlowAction::Finish(FlowOutcome::Failed(e))),
    }
}

fn finish(cached: bool, key: String) -> (out: (FlowState, FlowAction))
    ensures
        finish_step(out.0, out.1, cached, key@),
{
    if cached {
        (FlowState::Done, FlowAction::Finish(FlowOutcome::Cached { key }))
    } else {
        (FlowState::Done, FlowAction::Finish(FlowOutcome::Ready { key }))
    }
}

fn copy_string(s: &String) -> (r: String)
    ensures
        r@ == s@,
{
    s.clone()
}

/// One step of installing (`Install`), fetching (`Fetch`) or running (`Run`)
/// a toolchain for the target triple `target`.
pub fn step(mode: FlowMode, target: &str, state: FlowState, event: FlowEvent) -> (out: (
    FlowState,
    FlowAction,
))
    ensures
        step_spec(mode, target@, state, event, out.0, out.1),
{
    match (state, event) {
        (FlowState::Begin, FlowEvent::Start { input, entries }) => {
            let raw = chars_of(input.as_str());
            let v = string_of(&trim_chars(&raw));
            match pre_resolve_match(v.as_str(), &entries) {
                Some(n) => finish(true, n),
                None => match resolve_tag(v.as_str()) {
                    TagRequestOf::Ready(r) => resolved(r),
                    TagRequestOf::FromManifest(c) => (
                        FlowState::AwaitManifest { channel: c },
                        FlowAction::FetchManifest { channel: c },
                    ),
                    TagRequestOf::FromReleases(version) => (
                        FlowState::AwaitReleases { version },
                        FlowAction::FetchReleases { url: releases_url(RELEASES_PER_PAGE) },
                    ),
                },
            }
        },
        (FlowState::AwaitManifest { channel }, FlowEvent::ManifestFetched { body }) => resolved(
            tag_from_manifest(body.as_str(), channel),
        ),
        (FlowState::AwaitReleases { version }, FlowEvent::ReleasesFetched { releases }) => resolved(
            resolve_from(version.as_str(), releases.as_slice()),
        ),
        (FlowState::AwaitListing { tag }, FlowEvent::Listed { entries }) => {
            match post_resolve_match(tag.as_str(), &entries) {
                Some(n) => finish(true, n),
                None => {
                    let t = copy_string(&tag);
                    (FlowState::AwaitCacheCheck { tag }, FlowAction::CheckCache { tag: t })
                },
            }
        },
        (FlowState::AwaitCacheCheck { tag }, FlowEvent::CacheChecked { cached }) => {
            if cached {
                if mode == FlowMode::Fetch {
                    finish(true, tag)
                } else {
                    let t = copy_string(&tag);
                    (FlowState::AwaitQuery { tag }, FlowAction::QueryBinary { tag: t })
                }
            } else {
                let url = download_url(tag.as_str(), target);
                let t = copy_string(&tag);
                (FlowState::AwaitDownload { tag }, FlowAction::Download { tag: t, url })
            }
        },
        (FlowState::AwaitDownload { tag }, FlowEvent::Downloaded) => {
            let t = copy_string(&tag);
            (FlowState::AwaitQuery { tag }, FlowAction::QueryBinary { tag: t })
        },
        (FlowState::AwaitQuery { tag }, FlowEvent::Queried { output }) => {
            let key = match output {
                None => copy_string(&tag),
                Some(o) => canonical_key(tag.as_str(), Some(parse_rustc_version(o.as_str()))),
            };
            let kc = chars_of(key.as_str());
            let tc = chars_of(tag.as_str());
            if !seq_eq(&kc, &tc) {
                let k = copy_string(&key);
                (FlowState::AwaitRename { key: k }, FlowAction::Rename { from: tag, to: key })
            } else {
                finish(false, tag)
            }
        },
        (FlowState::AwaitRename { key }, FlowEvent::Renamed) => finish(false, key),
        _ => (FlowState::Done, FlowAction::Finish(FlowOutcome::OutOfOrder)),
    }
}

/// An input that matches a cached version before resolution is used at once:
/// the work ends with that version and nothing is fetched.
pub proof fn cached_input_needs_no_network(
    mode: FlowMode,
    target: Seq<char>,
    input: String,
    entries: Vec<CacheEntry>,
    ns: FlowState,
    a: FlowAction,
)
    requires
        pre_resolve_match_spec(trim(input@), entry_models(entries@)) is Some,
        step_spec(mode, target, FlowState::Begin, FlowEvent::Start { input, entries }, ns, a),
    ensures
        ns == FlowState::Done,
        a matches FlowAction::Finish(FlowOutcome::Cached { key }) && Some(key@)
            == pre_resolve_match_spec(trim(input@), entry_models(entries@)),
{
}

/// An exact version such as `1.87.0` that is not cached resolves with no
/// network access: the next action lists the cache for the version itself.
pub proof fn exact_version_needs_no_network(
    mode: FlowMode,
    target: Seq<char>,
    input: String,
    entries: Vec<CacheEntry>,
    ns: FlowState,
    a: FlowAction,
)
    requires
        pre_resolve_match_spec(trim(input@), entry_models(entries@)) is None,
        crate::releases::is_exact_version(trim(input@)),
        step_spec(mode, target, FlowState::Begin, FlowEvent::Start { input, entries }, ns, a),
    ensures
        a == FlowAction::ListCache,
        ns matches FlowState::AwaitListing { tag } && tag@ == trim(input@),
{
    let v = trim(input@);
    crate::text::lemma_trim_idempotent(input@);
    reveal_strlit("nightly");
    reveal_strlit("canary");
    reveal_strlit("next");
    reveal_strlit("edge");
    reveal_strlit("latest");
    reveal_strlit("beta");
    assert(!crate::releases::is_nightly_alias(v) && v != "beta"@) by {
        if v.len() > 0 {
            assert(crate::text::is_digit(v[0]) || v[0] == '.');
        }
    }
}

/// The names of the nightly channel.
pub open spec fn is_nightly_name(v: Seq<char>) -> bool {
    v == "nightly"@ || v == "canary"@ || v == "next"@ || v == "edge"@ || v == "latest"@
}

/// A channel name fetches the manifest of its own channel, whatever the cache
/// holds: `beta` the beta manifest, every nightly alias the nightly manifest.
/// A manifest is fetched for no other input, and the channel fetched is the
/// one that `resolve_tag` names for the input.
pub proof fn channel_input_fetches_its_manifest(
    mode: FlowMode,
    target: Seq<char>,
    input: String,
    entries: Vec<CacheEntry>,
    ns: FlowState,
    a: FlowAction,
)
    requires
        step_spec(mode, target, FlowState::Begin, FlowEvent::Start { input, entries }, ns, a),
    ensures
        trim(input@) == "beta"@ ==> (a == (FlowAction::FetchManifest { channel: Channel::Beta }))
            && (ns == (FlowState::AwaitManifest { channel: Channel::Beta })),
        is_nightly_name(trim(input@)) ==> (a == (FlowAction::FetchManifest {
            channel: Channel::Nightly,
        })) && (ns == (FlowState::AwaitManifest { channel: Channel::Nightly })),
        (a is FetchManifest) ==> (resolve_tag_spec(trim(input@)) == TagRequestOf::<
            Seq<char>,
        >::FromManifest(a->channel)) && (ns == (FlowState::AwaitManifest { channel: a->channel }))
            && (a->channel == Channel::Beta <==> trim(input@) == "beta"@),
{
    let v = trim(input@);
    crate::text::lemma_trim_idempotent(input@);
    crate::releases::channel_names_select_their_manifest(v);
    reveal_strlit("nightly");
    reveal_strlit("canary");
    reveal_strlit("next");
    reveal_strlit("edge");
    reveal_strlit("latest");
    reveal_strlit("beta");
    reveal_strlit("lts");
    reveal_strlit("stable");
    reveal_strlit("current");
    if v == "nightly"@ || v == "canary"@ || v == "next"@ || v == "edge"@ || v == "latest"@ || v
        == "beta"@ {
        assert(crate::install::is_alias_spec(v));
    }
}

/// A tag whose toolchain is already in the cache is never downloaded again.
pub proof fn cached_tag_is_not_downloaded(
    mode: FlowMode,
    target: Seq<char>,
    tag: String,
    ns: FlowState,
    a: FlowAction,
)
    requires
        step_spec(
            mode,
            target,
            FlowState::AwaitCacheCheck { tag },
            FlowEvent::CacheChecked { cached: true },
            ns,
            a,
        ),
    ensures
        !(a is Download),
        mode == FlowMode::Fetch ==> (a matches FlowAction::Finish(FlowOutcome::Cached { key })
            && key@ == tag@),
        mode != FlowMode::Fetch ==> (a matches FlowAction::QueryBinary { tag: t } && t@ == tag@),
{
}

} // verus!
