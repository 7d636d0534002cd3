//! Self-update decisions: whether a release is newer, what to report, and
//! which release asset fits this machine.

use vstd::prelude::*;
use crate::error::{ErrorKind, K8pkError};
use crate::text::{
    chars_of, chars_trim_start_seq, concat, contains_seq, owned, str_contains, str_eq, string_of,
    trim_start_seq,
};

verus! {

/// The outcome of an update check or install.
#[derive(Debug)]
pub struct UpdateResult {
    pub current_version: String,
    pub latest_version: Option<String>,
    pub updated: bool,
    pub message: String,
}

/// What to do once the latest release's tag is known.
#[derive(Debug)]
pub enum UpdateStep {
    /// Nothing to install: report this.
    Finished(UpdateResult),
    /// Download and install the latest release.
    Install,
}

/// A release tag's version: the tag with every leading `v` removed.
pub open spec fn tag_version(tag: Seq<char>) -> Seq<char> {
    trim_start_seq(tag, "v"@)
}

/// The message for a release that is already installed.
pub open spec fn up_to_date_message(current: Seq<char>, check_only: bool) -> Seq<char> {
    if check_only {
        "k8pk is already up to date (v"@ + current + ")"@
    } else {
        "k8pk is already at the latest version (v"@ + current
            + "). Use --force to reinstall anyway"@
    }
}

/// The message for a check that found a newer release.
pub open spec fn available_message(current: Seq<char>, latest_tag: Seq<char>) -> Seq<char> {
    "Current version: v"@ + current + "\nLatest version:  "@ + latest_tag + "\nUpdate available!"@
}

/// The decision, as a result when there is nothing to install.
pub open spec fn update_outcome(current: Seq<char>, latest_tag: Seq<char>, check_only: bool, force: bool) -> Option<(bool, Seq<char>)> {
    if tag_version(latest_tag) == current && !force {
        Some((false, up_to_date_message(current, check_only)))
    } else if check_only {
        Some((false, available_message(current, latest_tag)))
    } else {
        None
    }
}

/// Decide what to do given the running version and the latest release tag:
/// report that it is current (unless forced), report that an update is
/// available (when only checking), or install.
pub fn plan_update(current_version: &str, latest_tag: &str, check_only: bool, force: bool) -> (r: UpdateStep)
    ensures
        match r {
            UpdateStep::Finished(res) => {
                &&& update_outcome(current_version@, latest_tag@, check_only, force) == Some((res.updated, res.message@))
                &&& res.current_version@ == current_version@
                &&& res.latest_version matches Some(l) && l@ == latest_tag@
            },
            UpdateStep::Install => update_outcome(current_version@, latest_tag@, check_only, force) is None,
        },
{
    let tag_chars = chars_of(latest_tag);
    let v_chars = chars_of("v");
    proof {
        reveal_strlit("v");
    }
    let version = string_of(&chars_trim_start_seq(tag_chars.as_slice(), v_chars.as_slice()));
    if str_eq(version.as_str(), current_version) && !force {
        let message = if check_only {
            concat(concat("k8pk is already up to date (v", current_version).as_str(), ")")
        } else {
            concat(
                concat("k8pk is already at the latest version (v", current_version).as_str(),
                "). Use --force to reinstall anyway",
            )
        };
        return UpdateStep::Finished(
            UpdateResult {
                current_version: owned(current_version),
                latest_version: Some(owned(latest_tag)),
                updated: false,
                message,
            },
        );
    }
    if check_only {
        let a = concat("Current version: v", current_version);
        let b = concat(a.as_str(), "\nLatest version:  ");
        let c = concat(b.as_str(), latest_tag);
        let message = concat(c.as_str(), "\nUpdate available!");
        return UpdateStep::Finished(
            UpdateResult {
                current_version: owned(current_version),
                latest_version: Some(owned(latest_tag)),
                updated: false,
                message,
            },
        );
    }
    UpdateStep::Install
}

/// The result of a completed install of `latest_tag`.
pub fn installed_result(current_version: &str, latest_tag: &str) -> (r: UpdateResult)
    ensures
        r.current_version@ == current_version@,
        r.latest_version matches Some(l) && l@ == latest_tag@,
        r.updated,
        r.message@ == "Updated to "@ + latest_tag@,
{
    UpdateResult {
        current_version: owned(current_version),
        latest_version: Some(owned(latest_tag)),
        updated: true,
        message: concat("Updated to ", latest_tag),
    }
}

/// The release's tag, or the error for a release without one.
pub fn release_tag(tag: Option<&str>) -> (r: Result<String, K8pkError>)
    ensures
        match tag {
            Some(t) => r matches Ok(s) && s@ == t@,
            None => r matches Err(e) && e.kind() == ErrorKind::HttpError
                && e.detail() == "invalid release info: missing tag_name"@,
        },
{
    match tag {
        Some(t) => Ok(owned(t)),
        None => Err(K8pkError::HttpError(owned("invalid release info: missing tag_name"))),
    }
}

/// The platform names used in release asset names, from the operating
/// system and architecture names that std reports.
pub fn platform_names(os: &str, arch: &str) -> (r: (&'static str, &'static str))
    ensures
        r.0@ == (if os@ == "macos"@ {
            "darwin"@
        } else if os@ == "linux"@ {
            "linux"@
        } else {
            "unknown"@
        }),
        r.1@ == (if arch@ == "x86_64"@ {
            "amd64"@
        } else if arch@ == "aarch64"@ {
            "arm64"@
        } else {
            "unknown"@
        }),
{
    let o = if str_eq(os, "macos") {
        "darwin"
    } else if str_eq(os, "linux") {
        "linux"
    } else {
        "unknown"
    };
    let a = if str_eq(arch, "x86_64") {
        "amd64"
    } else if str_eq(arch, "aarch64") {
        "arm64"
    } else {
        "unknown"
    };
    (o, a)
}

/// The text that the asset for a platform has in its name.
pub open spec fn asset_pattern(os: Seq<char>, arch: Seq<char>) -> Seq<char> {
    "k8pk-"@ + os + "-"@ + arch
}

/// The asset has a name and it holds `pattern`.
pub open spec fn asset_fits(name: Option<String>, pattern: Seq<char>) -> bool {
    match name {
        Some(n) => contains_seq(n@, pattern),
        None => false,
    }
}

/// The position of the first release asset built for `os`-`arch`, given
/// the assets' names (absent where an asset has none); the error names the
/// platform when no asset fits.
pub fn select_asset(names: &[Option<String>], os: &str, arch: &str) -> (r: Result<usize, K8pkError>)
    ensures
        match r {
            Ok(i) => i < names@.len() && asset_fits(names@[i as int], asset_pattern(os@, arch@))
                && forall|j: int| 0 <= j < i ==> !asset_fits(#[trigger] names@[j], asset_pattern(os@, arch@)),
            Err(e) => e.kind() == ErrorKind::HttpError
                && e.detail() == "no binary found for platform: "@ + os@ + "-"@ + arch@
                && forall|j: int| 0 <= j < names@.len() ==> !asset_fits(#[trigger] names@[j], asset_pattern(os@, arch@)),
        },
{
    let a = concat("k8pk-", os);
    let b = concat(a.as_str(), "-");
    let pattern = concat(b.as_str(), arch);
    let mut i: usize = 0;
    while i < names.len()
        invariant
            i <= names@.len(),
            pattern@ == asset_pattern(os@, arch@),
            forall|j: int| 0 <= j < i ==> !asset_fits(#[trigger] names@[j], asset_pattern(os@, arch@)),
        decreases names.len() - i,
    {
        match &names[i] {
            Some(n) => {
                if str_contains(n.as_str(), pattern.as_str()) {
                    return Ok(i);
                }
            },
            None => {},
        }
        i = i + 1;
    }
    let c = concat("no binary found for platform: ", os);
    let d = concat(c.as_str(), "-");
    Err(K8pkError::HttpError(concat(d.as_str(), arch)))
}

} // verus!
