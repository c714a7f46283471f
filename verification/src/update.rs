//! Updating this program itself: reading the latest release of its own
//! repository and deciding whether, and from where, to download it.
use vstd::prelude::*;

use crate::install::{strip_version_tag, strip_version_tag_spec};
use crate::platform::{self_artifact, self_artifact_spec};
use crate::text::str_eq;

verus! {

/// The GitHub repository that publishes this program's releases.
pub const GITHUB_REPO: &'static str = "THernandez03/r";

/// The API URL of the repository's latest release.
pub fn latest_release_url() -> (url: String)
    ensures
        url@ == "https://api.github.com/repos/"@ + GITHUB_REPO@ + "/releases/latest"@,
{
    let mut url = String::from_str("https://api.github.com/repos/");
    url.append(GITHUB_REPO);
    url.append("/releases/latest");
    url
}

/// What `serde_json` reads from a release document: `None` when the text is
/// not JSON; otherwise the `tag_name` field when it is a string.
pub uninterp spec fn json_tag_name(body: Seq<char>) -> Option<Option<Seq<char>>>;

pub open spec fn opt_opt_view(o: Option<Option<String>>) -> Option<Option<Seq<char>>> {
    match o {
        None => None,
        Some(None) => Some(None),
        Some(Some(s)) => Some(Some(s@)),
    }
}

/// `serde_json::from_str` into a `serde_json::Value`, then its `tag_name`
/// member read with `Value::as_str`.
///
/// The contract claims only that the result is a function of the text
/// (named `json_tag_name`); what JSON parsing gives is not written out.
#[verifier::external_body]
fn release_tag_name(body: &str) -> (r: Option<Option<String>>)
    ensures
        opt_opt_view(r) == json_tag_name(body@),
{
    match serde_json::from_str::<serde_json::Value>(body) {
        Ok(v) => Some(v["tag_name"].as_str().map(|s| s.to_string())),
        Err(_) => None,
    }
}

/// Why an update cannot be planned.
#[derive(Debug, Clone, Copy, PartialEq, Eq, Structural)]
pub enum UpdateError {
    /// The release document is not JSON.
    BadJson,
    /// The release document has no string `tag_name`.
    NoTagName,
}

impl UpdateError {
    /// The message that tells the user what went wrong.
    pub fn message(&self) -> (m: &'static str)
        ensures
            *self == UpdateError::BadJson ==> m@ == "Failed to parse release JSON"@,
            *self == UpdateError::NoTagName ==> m@ == "No tag_name in GitHub release response"@,
    {
        match self {
            UpdateError::BadJson => "Failed to parse release JSON",
            UpdateError::NoTagName => "No tag_name in GitHub release response",
        }
    }
}

/// What an update does. `S` is the text type.
#[derive(Debug)]
pub enum UpdatePlanOf<S> {
    /// The running version is the latest one.
    UpToDate,
    /// Download the artifact at `url`, the release `tag` of version `remote`.
    Download { tag: S, remote: S, url: S },
}

pub type UpdatePlan = UpdatePlanOf<String>;

impl View for UpdatePlanOf<String> {
    type V = UpdatePlanOf<Seq<char>>;

    open spec fn view(&self) -> UpdatePlanOf<Seq<char>> {
        match self {
            UpdatePlanOf::UpToDate => UpdatePlanOf::UpToDate,
            UpdatePlanOf::Download { tag, remote, url } => UpdatePlanOf::Download {
                tag: tag@,
                remote: remote@,
                url: url@,
            },
        }
    }
}

/// The download URL of a release artifact of this program.
pub open spec fn release_asset_url(tag: Seq<char>, artifact: Seq<char>) -> Seq<char> {
    "https://github.com/"@ + GITHUB_REPO@ + "/releases/download/"@ + tag + "/"@ + artifact
}

/// What an update does, given what was read of the release document.
pub open spec fn update_plan_spec(
    tag: Option<Option<Seq<char>>>,
    name: Seq<char>,
    current: Seq<char>,
    os: Seq<char>,
    arch: Seq<char>,
) -> Result<UpdatePlanOf<Seq<char>>, UpdateError> {
    match tag {
        None => Err(UpdateError::BadJson),
        Some(None) => Err(UpdateError::NoTagName),
        Some(Some(t)) => {
            let remote = strip_version_tag_spec(t, name);
            if remote == current {
                Ok(UpdatePlanOf::UpToDate)
            } else {
                Ok(
                    UpdatePlanOf::Download {
                        tag: t,
                        remote,
                        url: release_asset_url(t, self_artifact_spec(name, os, arch)),
                    },
                )
            }
        },
    }
}

pub open spec fn plan_view(r: Result<UpdatePlan, UpdateError>) -> Result<
    UpdatePlanOf<Seq<char>>,
    UpdateError,
> {
    match r {
        Ok(p) => Ok(p@),
        Err(e) => Err(e),
    }
}

/// Decide the update of the program `name`, running version `current`, on
/// the platform `os`/`arch`, from what was read of the latest release:
/// `None` for a document that is not JSON, `Some(None)` for one without a
/// string `tag_name`.
pub fn plan_update_from_tag(
    tag: Option<Option<String>>,
    name: &str,
    current: &str,
    os: &str,
    arch: &str,
) -> (r: Result<UpdatePlan, UpdateError>)
    ensures
        plan_view(r) == update_plan_spec(opt_opt_view(tag), name@, current@, os@, arch@),
{
    match tag {
        None => Err(UpdateError::BadJson),
        Some(None) => Err(UpdateError::NoTagName),
        Some(Some(t)) => {
            let remote = strip_version_tag(t.as_str(), name);
            if str_eq(remote, current) {
                return Ok(UpdatePlanOf::UpToDate);
            }
            let remote = String::from_str(remote);
            let artifact = self_artifact(name, os, arch);
            let mut url = String::from_str("https://github.com/");
            url.append(GITHUB_REPO);
            url.append("/releases/download/");
            url.append(t.as_str());
            url.append("/");
            url.append(artifact.as_str());
            Ok(UpdatePlanOf::Download { tag: t, remote, url })
        },
    }
}

/// A release is downloaded unless its version is exactly the running one: the
/// plan is `UpToDate` exactly when the tag, stripped of `{name}-v` and `v`,
/// equals the running version, and otherwise it downloads that release, of
/// that version, from its asset URL. An older or newer release alike counts
/// as different.
pub proof fn update_unless_same_version(
    t: Seq<char>,
    name: Seq<char>,
    current: Seq<char>,
    os: Seq<char>,
    arch: Seq<char>,
)
    ensures
        update_plan_spec(Some(Some(t)), name, current, os, arch) == Ok::<
            UpdatePlanOf<Seq<char>>,
            UpdateError,
        >(UpdatePlanOf::UpToDate) <==> strip_version_tag_spec(t, name) == current,
        strip_version_tag_spec(t, name) != current ==> update_plan_spec(
            Some(Some(t)),
            name,
            current,
            os,
            arch,
        ) == Ok::<UpdatePlanOf<Seq<char>>, UpdateError>(
            UpdatePlanOf::Download {
                tag: t,
                remote: strip_version_tag_spec(t, name),
                url: release_asset_url(t, self_artifact_spec(name, os, arch)),
            },
        ),
{
}

/// For a release tagged `{name}-v{version}`, with `version` made of digits
/// and dots, the plan is `UpToDate` exactly when `version` is the running
/// version, and otherwise downloads `version`.
pub proof fn update_compares_tag_version(
    version: Seq<char>,
    name: Seq<char>,
    current: Seq<char>,
    os: Seq<char>,
    arch: Seq<char>,
)
    requires
        version.len() > 0,
        forall|i: int|
            0 <= i < version.len() ==> crate::text::is_digit(#[trigger] version[i]) || version[i]
                == '.',
        crate::text::is_digit(version[0]),
    ensures
        ({
            let plan = update_plan_spec(Some(Some(name + "-v"@ + version)), name, current, os, arch);
            &&& (plan == Ok::<UpdatePlanOf<Seq<char>>, UpdateError>(UpdatePlanOf::UpToDate)
                <==> version == current)
            &&& version != current ==> (plan matches Ok(UpdatePlanOf::Download { remote, .. })
                && remote == version)
        }),
{
    crate::install::strip_version_tag_forms(name, version);
    update_unless_same_version(name + "-v"@ + version, name, current, os, arch);
}

/// Self-update decision for this version manager: read the latest release
/// document of its repository and decide whether to download a new binary.
pub fn plan_update(body: &str, name: &str, current: &str, os: &str, arch: &str) -> (r: Result<
    UpdatePlan,
    UpdateError,
>)
    ensures
        plan_view(r) == update_plan_spec(json_tag_name(body@), name@, current@, os@, arch@),
{
    let tag = release_tag_name(body);
    plan_update_from_tag(tag, name, current, os, arch)
}

} // verus!
