use editor_core::auto_update::{
    build_remote_server_update_request_body, check, is_success, remote_server_path,
    view_release_notes, with_query_param, AppCommitSha, AutoUpdateStatus, AutoUpdater, JsonRelease,
    ReleaseChannel, ReleaseNotes, ReleaseQuery, ReleaseStage, SemanticVersion, UpdateError,
    AutoUpdateSettingContent, VersionCheckType, SHOULD_SHOW_UPDATE_NOTIFICATION_KEY,
};
use std::sync::Arc;

fn version() -> SemanticVersion {
    SemanticVersion { major: 0, minor: 187, patch: 10 }
}

fn updater(status: AutoUpdateStatus) -> AutoUpdater {
    AutoUpdater { status, current_version: version() }
}

fn channel(stage: ReleaseStage, name: &str, param: Option<&str>) -> ReleaseChannel {
    ReleaseChannel {
        stage,
        dev_name: name.to_string(),
        display_name: format!("Zed {name}"),
        release_query_param: param.map(|param| param.to_string()),
    }
}

#[test]
fn versions_in_writing() {
    assert_eq!(version().to_string(), "0.187.10");
}

#[test]
fn versions_are_compared() {
    let sha = |text: &str| VersionCheckType::Sha(AppCommitSha(text.to_string()));
    assert!(sha("abc") == sha("abc"));
    assert!(sha("abc") != sha("abd"));
    assert!(VersionCheckType::Semantic(version()) == VersionCheckType::Semantic(version()));
    assert!(VersionCheckType::Semantic(version()) != sha("0.187.10"));
}

#[test]
fn dismissing() {
    let mut idle = updater(AutoUpdateStatus::Idle);
    assert!(!idle.dismiss());
    let mut checking = updater(AutoUpdateStatus::Checking);
    assert!(checking.dismiss());
    assert!(matches!(checking.status(), AutoUpdateStatus::Idle));
    assert!(!checking.dismiss());
    assert_eq!(checking.current_version(), version());
}

#[test]
fn only_an_installed_update_is_one() {
    let version = || VersionCheckType::Semantic(version());
    assert!(AutoUpdateStatus::Updated { version: version() }.is_updated());
    assert!(!AutoUpdateStatus::Installing { version: version() }.is_updated());
    assert!(!AutoUpdateStatus::Downloading { version: version() }.is_updated());
    assert!(!AutoUpdateStatus::Idle.is_updated());
    let error = Arc::new(anyhow::Error::msg("no network"));
    let errored = updater(AutoUpdateStatus::Errored { error });
    assert!(!errored.status().is_updated());
    match errored.status() {
        AutoUpdateStatus::Errored { error } => assert_eq!(error.to_string(), "no network"),
        _ => panic!("expected the error"),
    }
}

#[test]
fn known_releases() {
    let preview = channel(ReleaseStage::Preview, "preview", Some("preview=1"));
    match AutoUpdater::get_release("zed", "linux", "x86_64", Some(version()), Some(&preview)) {
        ReleaseQuery::Known { version, path } => {
            assert_eq!(version, "0.187.10");
            assert_eq!(path, "/api/releases/preview/0.187.10/zed-linux-x86_64.gz?update=1");
        }
        _ => panic!("expected a known release"),
    }
    match AutoUpdater::get_release("zed", "macos", "aarch64", Some(version()), None) {
        ReleaseQuery::Known { path, .. } => {
            assert_eq!(path, "/api/releases/stable/0.187.10/zed-macos-aarch64.gz?update=1");
        }
        _ => panic!("expected a known release"),
    }
}

#[test]
fn latest_releases() {
    let nightly = channel(ReleaseStage::Nightly, "nightly", Some("nightly=1"));
    match AutoUpdater::get_release("zed", "linux", "x86_64", None, Some(&nightly)) {
        ReleaseQuery::Latest { path, param } => {
            assert_eq!(path, "/api/releases/latest?asset=zed&os=linux&arch=x86_64");
            let url = format!("https://zed.dev{path}");
            assert_eq!(
                with_query_param(url, &param),
                "https://zed.dev/api/releases/latest?asset=zed&os=linux&arch=x86_64&nightly=1"
            );
        }
        _ => panic!("expected a query"),
    }
    match AutoUpdater::get_release("zed", "linux", "x86_64", None, None) {
        ReleaseQuery::Latest { param, .. } => {
            assert!(param.is_none());
            assert_eq!(with_query_param("u".to_string(), &param), "u");
        }
        _ => panic!("expected a query"),
    }
}

#[test]
fn remote_server_releases() {
    let stable = channel(ReleaseStage::Stable, "stable", None);
    let idle = updater(AutoUpdateStatus::Idle);
    match AutoUpdater::remote_server_release(Some(&idle), "linux", "x86_64", &stable, None) {
        Ok(ReleaseQuery::Latest { path, param }) => {
            assert_eq!(path, "/api/releases/latest?asset=zed-remote-server&os=linux&arch=x86_64");
            assert!(param.is_none());
        }
        _ => panic!("expected a query"),
    }
    let result = AutoUpdater::remote_server_release(None, "linux", "x86_64", &stable, None);
    assert_eq!(result.err(), Some(UpdateError::NotInitialized));
}

#[test]
fn answers_of_the_server() {
    let release = || JsonRelease { version: "1.0.0".to_string(), url: "u".to_string() };
    assert_eq!(AutoUpdater::fetched_release(200, Some(release())).unwrap().version, "1.0.0");
    assert_eq!(AutoUpdater::fetched_release(404, Some(release())).err(), Some(UpdateError::FetchFailed));
    assert_eq!(AutoUpdater::fetched_release(500, None).err(), Some(UpdateError::FetchFailed));
    assert_eq!(AutoUpdater::fetched_release(299, None).err(), Some(UpdateError::Unreadable));
    assert_eq!(AutoUpdater::download_remote_server_binary(204), Ok(()));
    assert_eq!(AutoUpdater::download_remote_server_binary(302), Err(UpdateError::DownloadFailed));
    for (status, success) in [(199, false), (200, true), (299, true), (300, false)] {
        assert_eq!(is_success(status), success);
    }
}

#[test]
fn downloaded_servers_are_kept_by_platform() {
    let stable = channel(ReleaseStage::Stable, "stable", None);
    let release = JsonRelease { version: "1.2.3".to_string(), url: "u".to_string() };
    let path = remote_server_path(&stable, "linux", "aarch64", &release);
    assert_eq!(path.channel_dir, "stable");
    assert_eq!(path.platform_dir, "linux-aarch64");
    assert_eq!(path.file, "1.2.3.gz");
}

#[test]
fn requests_tell_nothing_of_the_user() {
    let stable = channel(ReleaseStage::Stable, "Stable", None);
    let body = build_remote_server_update_request_body(Some(&stable));
    assert_eq!(body.release_channel.as_deref(), Some("Zed Stable"));
    assert_eq!(body.installation_id, None);
    assert_eq!(body.is_staff, None);
    assert!(!body.telemetry);
    assert_eq!(body.destination, "remote");
    assert_eq!(build_remote_server_update_request_body(None).release_channel, None);
}

#[test]
fn release_notes() {
    let idle = updater(AutoUpdateStatus::Idle);
    let notes = |stage, name| view_release_notes(Some(&idle), Some(&channel(stage, name, None)));
    assert!(matches!(notes(ReleaseStage::Stable, "stable"),
        Some(ReleaseNotes::Path(path)) if path == "/releases/stable/0.187.10"));
    assert!(matches!(notes(ReleaseStage::Preview, "preview"),
        Some(ReleaseNotes::Path(path)) if path == "/releases/preview/0.187.10"));
    assert!(matches!(notes(ReleaseStage::Nightly, "nightly"),
        Some(ReleaseNotes::Url(url)) if url == "https://github.com/zed-industries/zed/commits/nightly/"));
    assert!(matches!(notes(ReleaseStage::Dev, "dev"),
        Some(ReleaseNotes::Url(url)) if url == "https://github.com/zed-industries/zed/commits/main/"));
    assert!(view_release_notes(None, Some(&channel(ReleaseStage::Dev, "dev", None))).is_none());
    assert!(view_release_notes(Some(&idle), None).is_none());
}

#[test]
fn prompts() {
    let prompt = check(None);
    assert_eq!(prompt.message, "Could not check for updates");
    assert_eq!(prompt.detail, "Auto-updates disabled for non-bundled app.");
    assert_eq!(prompt.answers, vec!["Ok".to_string()]);
    let prompt = check(Some("Use apt.".to_string()));
    assert_eq!(prompt.message, "Zed was installed via a package manager.");
    assert_eq!(prompt.detail, "Use apt.");
}

#[test]
fn updates_are_checked_for_by_default() {
    assert!(AutoUpdateSettingContent::default().0);
}

#[test]
fn announcements() {
    let idle = updater(AutoUpdateStatus::Idle);
    assert!(idle.should_show_update_notification(&Some(String::new())));
    assert!(!idle.should_show_update_notification(&None));
    assert_eq!(
        SHOULD_SHOW_UPDATE_NOTIFICATION_KEY,
        "auto-updater-should-show-updated-notification"
    );
}
