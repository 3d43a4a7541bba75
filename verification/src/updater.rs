//! What a check for a newer release concludes from GitHub's answer.

use vstd::prelude::*;
use crate::text::{
    chars_of, decimal_digits, ends_with, has_suffix, push_decimal, skip_leading, strip_leading,
    substring, trim_bounds, trim_ws,
};
use crate::version::{is_newer_parts, is_newer_version, version_numbers};

verus! {

/// A file attached to a release.
#[derive(Debug, Clone)]
pub struct ReleaseAsset {
    pub name: String,
    pub browser_download_url: String,
    pub size: Option<u64>,
}

/// The latest release of the project, as GitHub describes it.
#[derive(Debug, Clone)]
pub struct GitHubRelease {
    pub tag_name: String,
    pub html_url: String,
    pub name: Option<String>,
    pub body: Option<String>,
    pub assets: Vec<ReleaseAsset>,
}

/// The outcome of a check for updates.
#[derive(Debug, Clone)]
pub enum UpdateStatus {
    /// The running version (given) is the latest one.
    UpToDate(String),
    /// A newer release exists.
    NewVersionAvailable {
        version: String,
        rpm_url: Option<String>,
        html_url: String,
        notes: String,
    },
    /// The check failed, for the reason given.
    Error(String),
}

/// The notes shown for a release that carries none.
pub const NO_RELEASE_NOTES: &'static str = "No release notes provided.";

/// The start of the message for an unexpected HTTP status.
pub const HTTP_ERROR_PREFIX: &'static str = "GitHub API returned HTTP ";

/// The HTTP status that GitHub answers when the project has no published release.
pub const HTTP_NOT_FOUND: u16 = 404;

/// A success status in the sense of HTTP: 200 to 299.
pub open spec fn is_success_status(status: u16) -> bool {
    200 <= status && status < 300
}

/// What a check concludes from the HTTP status alone: there is no release yet
/// (404), the request failed (any other status outside 200..=299), or the body
/// must be read (`None`).
pub fn response_status(current_version: &str, http_status: u16) -> (r: Option<UpdateStatus>)
    ensures
        http_status == HTTP_NOT_FOUND ==> (r matches Some(UpdateStatus::UpToDate(v))
            && v@ == current_version@),
        http_status != HTTP_NOT_FOUND && !is_success_status(http_status) ==> (r matches Some(
            UpdateStatus::Error(m),
        ) && m@ == HTTP_ERROR_PREFIX@ + decimal_digits(http_status as nat)),
        http_status != HTTP_NOT_FOUND && is_success_status(http_status) ==> r is None,
{
    if http_status == HTTP_NOT_FOUND {
        return Some(UpdateStatus::UpToDate(current_version.to_owned()));
    }
    if !(200 <= http_status && http_status < 300) {
        let mut m = HTTP_ERROR_PREFIX.to_owned();
        push_decimal(&mut m, http_status as u64);
        return Some(UpdateStatus::Error(m));
    }
    None
}

/// The name of an RPM package.
pub open spec fn is_rpm_name(name: Seq<char>) -> bool {
    has_suffix(name, seq!['.', 'r', 'p', 'm'])
}

/// `assets[i]` is the first RPM package among `assets`.
pub open spec fn is_first_rpm(assets: Seq<ReleaseAsset>, i: int) -> bool {
    &&& 0 <= i < assets.len()
    &&& is_rpm_name(assets[i].name@)
    &&& forall|j: int| 0 <= j < i ==> !is_rpm_name(#[trigger] assets[j].name@)
}

/// The download address of the first asset whose name ends with `.rpm`.
pub fn rpm_download_url(assets: &Vec<ReleaseAsset>) -> (r: Option<String>)
    ensures
        r matches Some(u) ==> exists|i: int|
            is_first_rpm(assets@, i) && u@ == #[trigger] assets@[i].browser_download_url@,
        r is None ==> forall|i: int|
            0 <= i < assets@.len() ==> !is_rpm_name(#[trigger] assets@[i].name@),
{
    let suffix = ".rpm";
    proof {
        reveal_strlit(".rpm");
    }
    assert(suffix@ =~= seq!['.', 'r', 'p', 'm']);
    let mut i: usize = 0;
    while i < assets.len()
        invariant
            i <= assets@.len(),
            suffix@ == seq!['.', 'r', 'p', 'm'],
            forall|j: int| 0 <= j < i ==> !is_rpm_name(#[trigger] assets@[j].name@),
        decreases assets@.len() - i,
    {
        if ends_with(assets[i].name.as_str(), suffix) {
            let url = assets[i].browser_download_url.clone();
            assert(is_first_rpm(assets@, i as int));
            assert(url@ == assets@[i as int].browser_download_url@);
            return Some(url);
        }
        i = i + 1;
    }
    None
}

/// The release's version text as it is compared: trimmed, without a leading `v`.
pub open spec fn compared_tag(tag: Seq<char>) -> Seq<char> {
    strip_leading(trim_ws(tag), 'v')
}

/// The release is newer than the running version.
pub open spec fn release_is_newer(current_version: Seq<char>, release: GitHubRelease) -> bool {
    is_newer_parts(version_numbers(compared_tag(release.tag_name@)), version_numbers(current_version))
}

/// A release is announced exactly when its tag, trimmed and without a leading
/// `v`, names a newer version than the running one by the version order:
/// the first differing number decides, whichever position it holds.
pub proof fn law_release_is_newer_is_version_order(current_version: Seq<char>, release: GitHubRelease)
    ensures
        release_is_newer(current_version, release) <==> is_newer_parts(
            version_numbers(strip_leading(trim_ws(release.tag_name@), 'v')),
            version_numbers(current_version),
        ),
{
}

/// What a check concludes from the latest release: a newer version with its
/// first RPM download, its page and its notes, or that the running version is
/// up to date.
pub fn release_status(current_version: &str, release: &GitHubRelease) -> (r: UpdateStatus)
    ensures
        release_is_newer(current_version@, *release) ==> (r matches UpdateStatus::NewVersionAvailable {
            version,
            rpm_url,
            html_url,
            notes,
        } && version@ == release.tag_name@ && html_url@ == release.html_url@ && (
        rpm_url matches Some(u) ==> exists|i: int|
            is_first_rpm(release.assets@, i) && u@ == #[trigger] release.assets@[i].browser_download_url@)
            && (rpm_url is None ==> forall|i: int|
            0 <= i < release.assets@.len() ==> !is_rpm_name(#[trigger] release.assets@[i].name@))
            && notes@ == match release.body {
            Some(b) => b@,
            None => NO_RELEASE_NOTES@,
        }),
        !release_is_newer(current_version@, *release) ==> (r matches UpdateStatus::UpToDate(v)
            && v@ == current_version@),
        (r is NewVersionAvailable) <==> is_newer_parts(
            version_numbers(strip_leading(trim_ws(release.tag_name@), 'v')),
            version_numbers(current_version@),
        ),
        r matches UpdateStatus::UpToDate(v) ==> v@ == current_version@,
        !(r is Error),
{
    proof {
        law_release_is_newer_is_version_order(current_version@, *release);
    }
    let tag = chars_of(release.tag_name.as_str());
    let (lo, hi) = trim_bounds(&tag);
    let a = skip_leading(&tag, lo, hi, 'v');
    let latest = substring(&tag, a, hi);
    if is_newer_version(latest.as_str(), current_version) {
        let rpm_url = rpm_download_url(&release.assets);
        let notes = match &release.body {
            Some(b) => b.clone(),
            None => NO_RELEASE_NOTES.to_owned(),
        };
        UpdateStatus::NewVersionAvailable {
            version: release.tag_name.clone(),
            rpm_url,
            html_url: release.html_url.clone(),
            notes,
        }
    } else {
        UpdateStatus::UpToDate(current_version.to_owned())
    }
}

} // verus!
