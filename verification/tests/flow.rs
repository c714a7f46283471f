use rvm::cache::CacheEntry;
use rvm::flow::{step, FlowAction, FlowEvent, FlowMode, FlowOutcome, FlowState};
use rvm::releases::{Channel, GhRelease};

const TARGET: &str = "x86_64-unknown-linux-gnu";

fn entry(name: &str) -> CacheEntry {
    CacheEntry {
        name: Some(name.to_string()),
        is_dir: true,
        has_rustc: true,
        modified: 0,
    }
}

fn start(input: &str, entries: Vec<CacheEntry>) -> FlowEvent {
    FlowEvent::Start {
        input: input.to_string(),
        entries,
    }
}

#[test]
fn download_only_skips_if_already_cached() {
    let (state, action) = step(
        FlowMode::Fetch,
        TARGET,
        FlowState::Begin,
        start("1.87.0", vec![entry("1.87.0")]),
    );
    assert!(matches!(state, FlowState::Done));
    assert!(matches!(action, FlowAction::Finish(FlowOutcome::Cached { key }) if key == "1.87.0"));
}

#[test]
fn fetch_skips_download_when_already_cached() {
    let (_, action) = step(
        FlowMode::Fetch,
        TARGET,
        FlowState::Begin,
        start(" 1.87.x ", vec![entry("1.87.0+17067e9ac")]),
    );
    assert!(
        matches!(action, FlowAction::Finish(FlowOutcome::Cached { key }) if key == "1.87.0+17067e9ac")
    );
}

#[test]
fn install_exact_version_downloads_then_renames() {
    let (state, action) = step(FlowMode::Install, TARGET, FlowState::Begin, start("1.88.0", vec![]));
    assert!(matches!(action, FlowAction::ListCache));
    let (state, action) = step(FlowMode::Install, TARGET, state, FlowEvent::Listed { entries: vec![] });
    assert!(matches!(&action, FlowAction::CheckCache { tag } if tag == "1.88.0"));
    let (state, action) =
        step(FlowMode::Install, TARGET, state, FlowEvent::CacheChecked { cached: false });
    match &action {
        FlowAction::Download { tag, url } => {
            assert_eq!(tag, "1.88.0");
            assert_eq!(
                url,
                "https://static.rust-lang.org/dist/rust-1.88.0-x86_64-unknown-linux-gnu.tar.gz"
            );
        }
        other => panic!("unexpected {other:?}"),
    }
    let (state, action) = step(FlowMode::Install, TARGET, state, FlowEvent::Downloaded);
    assert!(matches!(&action, FlowAction::QueryBinary { tag } if tag == "1.88.0"));
    let (state, action) = step(
        FlowMode::Install,
        TARGET,
        state,
        FlowEvent::Queried {
            output: Some("rustc 1.88.0 (6b00bc388 2025-06-23)\n".to_string()),
        },
    );
    assert!(
        matches!(&action, FlowAction::Rename { from, to } if from == "1.88.0" && to == "1.88.0+6b00bc388")
    );
    let (state, action) = step(FlowMode::Install, TARGET, state, FlowEvent::Renamed);
    assert!(matches!(state, FlowState::Done));
    assert!(
        matches!(action, FlowAction::Finish(FlowOutcome::Ready { key }) if key == "1.88.0+6b00bc388")
    );
}

#[test]
fn nightly_goes_through_manifest() {
    let (state, action) = step(FlowMode::Run, TARGET, FlowState::Begin, start("nightly", vec![]));
    assert!(matches!(action, FlowAction::FetchManifest { channel: Channel::Nightly }));
    let body = "[pkg.rust]\nversion = \"1.90.0-nightly (abc1234de 2025-02-01)\"\n".to_string();
    let (state, action) = step(FlowMode::Run, TARGET, state, FlowEvent::ManifestFetched { body });
    assert!(matches!(action, FlowAction::ListCache));
    let (_, action) = step(
        FlowMode::Run,
        TARGET,
        state,
        FlowEvent::Listed {
            entries: vec![entry("1.90.0+abc1234de")],
        },
    );
    assert!(
        matches!(action, FlowAction::Finish(FlowOutcome::Cached { key }) if key == "1.90.0+abc1234de")
    );
}

#[test]
fn stable_goes_through_release_list() {
    let (state, action) = step(FlowMode::Install, TARGET, FlowState::Begin, start("stable", vec![]));
    assert!(
        matches!(&action, FlowAction::FetchReleases { url } if url == "https://api.github.com/repos/rust-lang/rust/releases?per_page=100")
    );
    let releases = vec![
        GhRelease { tag_name: "1.88.0-beta.1".to_string(), prerelease: true },
        GhRelease { tag_name: "1.87.0".to_string(), prerelease: false },
    ];
    let (state, action) =
        step(FlowMode::Install, TARGET, state, FlowEvent::ReleasesFetched { releases });
    assert!(matches!(action, FlowAction::ListCache));
    assert!(matches!(&state, FlowState::AwaitListing { tag } if tag == "1.87.0"));
}

#[test]
fn nightly_key_downloads_channel_archive() {
    let state = FlowState::AwaitCacheCheck { tag: "1.90.0-nightly+abc1234de".to_string() };
    let (_, action) =
        step(FlowMode::Install, TARGET, state, FlowEvent::CacheChecked { cached: false });
    match action {
        FlowAction::Download { tag, url } => {
            assert_eq!(tag, "1.90.0-nightly+abc1234de");
            assert_eq!(
                url,
                "https://static.rust-lang.org/dist/rust-nightly-x86_64-unknown-linux-gnu.tar.gz"
            );
        }
        other => panic!("unexpected {other:?}"),
    }
}

#[test]
fn cached_tag_is_queried_not_downloaded() {
    let state = FlowState::AwaitCacheCheck { tag: "1.87.0".to_string() };
    let (state, action) =
        step(FlowMode::Run, TARGET, state, FlowEvent::CacheChecked { cached: true });
    assert!(matches!(&action, FlowAction::QueryBinary { tag } if tag == "1.87.0"));
    let (_, action) = step(FlowMode::Run, TARGET, state, FlowEvent::Queried { output: None });
    assert!(matches!(action, FlowAction::Finish(FlowOutcome::Ready { key }) if key == "1.87.0"));
}

#[test]
fn fetch_ends_when_tag_is_cached() {
    let state = FlowState::AwaitCacheCheck { tag: "1.87.0".to_string() };
    let (_, action) = step(FlowMode::Fetch, TARGET, state, FlowEvent::CacheChecked { cached: true });
    assert!(matches!(action, FlowAction::Finish(FlowOutcome::Cached { key }) if key == "1.87.0"));
}

#[test]
fn v_prefixed_input_fails() {
    let (_, action) = step(FlowMode::Install, TARGET, FlowState::Begin, start("v1.87.0", vec![]));
    match action {
        FlowAction::Finish(FlowOutcome::Failed(e)) => {
            assert_eq!(e.message(), "No Rust release found matching 'v1.87.0'")
        }
        other => panic!("unexpected {other:?}"),
    }
}

#[test]
fn unexpected_event_is_reported() {
    let (state, action) = step(FlowMode::Install, TARGET, FlowState::Begin, FlowEvent::Downloaded);
    assert!(matches!(state, FlowState::Done));
    assert!(matches!(action, FlowAction::Finish(FlowOutcome::OutOfOrder)));
}
