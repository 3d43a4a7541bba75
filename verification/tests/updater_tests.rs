use spotdora::updater::{
    release_status, response_status, rpm_download_url, GitHubRelease, ReleaseAsset, UpdateStatus,
};

fn asset(name: &str, url: &str) -> ReleaseAsset {
    ReleaseAsset { name: name.to_string(), browser_download_url: url.to_string(), size: None }
}

fn release(tag: &str, body: Option<&str>, assets: Vec<ReleaseAsset>) -> GitHubRelease {
    GitHubRelease {
        tag_name: tag.to_string(),
        html_url: "https://github.com/lexp-hub/Spotdora/releases/tag/x".to_string(),
        name: None,
        body: body.map(|b| b.to_string()),
        assets,
    }
}

#[test]
fn not_found_means_up_to_date() {
    match response_status("0.5.1", 404) {
        Some(UpdateStatus::UpToDate(v)) => assert_eq!(v, "0.5.1"),
        other => panic!("unexpected {other:?}"),
    }
}

#[test]
fn other_failures_name_the_status() {
    match response_status("0.5.1", 503) {
        Some(UpdateStatus::Error(m)) => assert_eq!(m, "GitHub API returned HTTP 503"),
        other => panic!("unexpected {other:?}"),
    }
    match response_status("0.5.1", 302) {
        Some(UpdateStatus::Error(m)) => assert_eq!(m, "GitHub API returned HTTP 302"),
        other => panic!("unexpected {other:?}"),
    }
    match response_status("0.5.1", 0) {
        Some(UpdateStatus::Error(m)) => assert_eq!(m, "GitHub API returned HTTP 0"),
        other => panic!("unexpected {other:?}"),
    }
}

#[test]
fn success_reads_the_body() {
    assert!(response_status("0.5.1", 200).is_none());
    assert!(response_status("0.5.1", 299).is_none());
}

#[test]
fn first_rpm_asset_is_offered() {
    let assets = vec![
        asset("spotdora.tar.gz", "https://a/tar"),
        asset("spotdora-0.6.0.x86_64.rpm", "https://a/rpm1"),
        asset("spotdora-0.6.0.src.rpm", "https://a/rpm2"),
    ];
    assert_eq!(rpm_download_url(&assets), Some("https://a/rpm1".to_string()));
    assert_eq!(rpm_download_url(&vec![asset("x.deb", "https://a/deb")]), None);
    assert_eq!(rpm_download_url(&vec![asset("rpm", "https://a/short")]), None);
}

#[test]
fn newer_release_is_announced() {
    let r = release(" v0.6.0", Some("Fixes"), vec![asset("s.rpm", "https://a/s.rpm")]);
    match release_status("0.5.1", &r) {
        UpdateStatus::NewVersionAvailable { version, rpm_url, html_url, notes } => {
            assert_eq!(version, " v0.6.0");
            assert_eq!(rpm_url, Some("https://a/s.rpm".to_string()));
            assert_eq!(html_url, "https://github.com/lexp-hub/Spotdora/releases/tag/x");
            assert_eq!(notes, "Fixes");
        }
        other => panic!("unexpected {other:?}"),
    }
}

#[test]
fn release_without_notes_gets_the_fallback() {
    let r = release("v1.0.0", None, vec![]);
    match release_status("0.5.1", &r) {
        UpdateStatus::NewVersionAvailable { rpm_url, notes, .. } => {
            assert_eq!(rpm_url, None);
            assert_eq!(notes, "No release notes provided.");
        }
        other => panic!("unexpected {other:?}"),
    }
}

#[test]
fn same_or_older_release_is_up_to_date() {
    for tag in ["v0.5.1", "0.5.1", "v0.5.0", "0.5"] {
        match release_status("0.5.1", &release(tag, None, vec![])) {
            UpdateStatus::UpToDate(v) => assert_eq!(v, "0.5.1"),
            other => panic!("unexpected {other:?}"),
        }
    }
}
