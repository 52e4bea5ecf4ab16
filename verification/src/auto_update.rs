//! Updates of the application and of the servers that it runs on remote machines.

use std::sync::Arc;
use vstd::prelude::*;

use crate::decimal::{decimal, push_decimal};

verus! {

/// An error of any kind, which `anyhow` carries along. Nothing is claimed of it.
#[verifier::external_type_specification]
#[verifier::external_body]
pub struct ExAnyhowError(anyhow::Error);

/// Whether updates are checked for automatically.
#[derive(Debug, Clone, Copy, PartialEq, Eq, Structural)]
pub struct AutoUpdateSettingContent(pub bool);

impl Default for AutoUpdateSettingContent {
    /// Unless the user says otherwise, they are.
    fn default() -> (setting: Self)
        ensures
            setting.0,
    {
        AutoUpdateSettingContent(true)
    }
}

/// Under this key it is remembered that an update was installed and is to be announced.
pub const SHOULD_SHOW_UPDATE_NOTIFICATION_KEY: &'static str =
    "auto-updater-should-show-updated-notification";

/// The asset of a remote server.
pub const REMOTE_SERVER_ASSET: &'static str = "zed-remote-server";

/// A version of the application.
#[derive(Debug, Clone, Copy, PartialEq, Eq, Structural)]
pub struct SemanticVersion {
    pub major: u64,
    pub minor: u64,
    pub patch: u64,
}

impl SemanticVersion {
    /// A version in writing: its three numbers with dots between them.
    pub open spec fn text(self) -> Seq<char> {
        decimal(self.major as nat) + seq!['.'] + decimal(self.minor as nat) + seq!['.'] + decimal(
            self.patch as nat,
        )
    }

    /// Writes a version.
    pub fn to_string(&self) -> (text: String)
        ensures
            text@ == self.text(),
    {
        let mut text = String::new();
        push_decimal(&mut text, self.major);
        text.push('.');
        push_decimal(&mut text, self.minor);
        text.push('.');
        push_decimal(&mut text, self.patch);
        assert(text@ =~= self.text());
        text
    }
}

/// The commit that the application was built from.
#[derive(Debug)]
pub struct AppCommitSha(pub String);

/// What is compared when versions are checked.
#[derive(Debug)]
pub enum VersionCheckType {
    Sha(AppCommitSha),
    Semantic(SemanticVersion),
}

impl VersionCheckType {
    /// Whether two versions are the same.
    pub open spec fn same(self, other: VersionCheckType) -> bool {
        match (self, other) {
            (VersionCheckType::Sha(a), VersionCheckType::Sha(b)) => a.0@ == b.0@,
            (VersionCheckType::Semantic(a), VersionCheckType::Semantic(b)) => a == b,
            _ => false,
        }
    }
}

impl Clone for VersionCheckType {
    fn clone(&self) -> (copy: Self)
        ensures
            copy == *self,
    {
        match self {
            VersionCheckType::Sha(sha) => VersionCheckType::Sha(AppCommitSha(sha.0.clone())),
            VersionCheckType::Semantic(version) => VersionCheckType::Semantic(*version),
        }
    }
}

impl PartialEq for VersionCheckType {
    fn eq(&self, other: &Self) -> (result: bool) {
        match (self, other) {
            (VersionCheckType::Sha(a), VersionCheckType::Sha(b)) => a.0 == b.0,
            (VersionCheckType::Semantic(a), VersionCheckType::Semantic(b)) => *a == *b,
            _ => false,
        }
    }
}

impl vstd::std_specs::cmp::PartialEqSpecImpl for VersionCheckType {
    open spec fn obeys_eq_spec() -> bool {
        true
    }

    open spec fn eq_spec(&self, other: &Self) -> bool {
        self.same(*other)
    }
}

impl Eq for VersionCheckType {

}

/// How far an update got.
pub enum AutoUpdateStatus {
    Idle,
    Checking,
    Downloading { version: VersionCheckType },
    Installing { version: VersionCheckType },
    Updated { version: VersionCheckType },
    Errored { error: Arc<anyhow::Error> },
}

impl Clone for AutoUpdateStatus {
    fn clone(&self) -> (copy: Self)
        ensures
            copy == *self,
    {
        match self {
            AutoUpdateStatus::Idle => AutoUpdateStatus::Idle,
            AutoUpdateStatus::Checking => AutoUpdateStatus::Checking,
            AutoUpdateStatus::Downloading { version } => AutoUpdateStatus::Downloading {
                version: version.clone(),
            },
            AutoUpdateStatus::Installing { version } => AutoUpdateStatus::Installing {
                version: version.clone(),
            },
            AutoUpdateStatus::Updated { version } => AutoUpdateStatus::Updated {
                version: version.clone(),
            },
            AutoUpdateStatus::Errored { error } => AutoUpdateStatus::Errored {
                error: Arc::clone(error),
            },
        }
    }
}

impl AutoUpdateStatus {
    /// Tells whether an update is installed.
    pub fn is_updated(&self) -> (result: bool)
        ensures
            result == (self is Updated),
    {
        match self {
            AutoUpdateStatus::Updated { .. } => true,
            _ => false,
        }
    }
}

/// How an update was asked for.
#[derive(Debug, Clone, Copy, PartialEq, Eq, Structural)]
pub enum UpdateCheckType {
    Automatic,
    Manual,
}

/// The state of the updates.
pub struct AutoUpdater {
    pub status: AutoUpdateStatus,
    pub current_version: SemanticVersion,
}

/// A release that can be downloaded.
#[derive(Debug)]
pub struct JsonRelease {
    pub version: String,
    pub url: String,
}

impl Clone for JsonRelease {
    fn clone(&self) -> (copy: Self)
        ensures
            copy == *self,
    {
        JsonRelease { version: self.version.clone(), url: self.url.clone() }
    }
}

/// How mature releases are.
#[derive(Debug, Clone, Copy, PartialEq, Eq, Structural)]
pub enum ReleaseStage {
    Dev,
    Nightly,
    Preview,
    Stable,
}

/// A channel on which releases appear, and how it is named.
#[derive(Debug)]
pub struct ReleaseChannel {
    pub stage: ReleaseStage,
    /// The name in paths.
    pub dev_name: String,
    /// The name for readers.
    pub display_name: String,
    /// What asks for the channel's releases in a query, if anything does.
    pub release_query_param: Option<String>,
}

/// Why an update failed.
#[derive(Debug, Clone, Copy, PartialEq, Eq, Structural)]
pub enum UpdateError {
    NotInitialized,
    /// The server refused to answer.
    FetchFailed,
    /// The answer does not describe a release.
    Unreadable,
    /// The server refused the download.
    DownloadFailed,
}

/// How a release is found.
#[derive(Debug)]
pub enum ReleaseQuery {
    /// The release is known: its version, and the path to download it from.
    Known { version: String, path: String },
    /// Ask the server at a path, followed by a parameter if there is one.
    Latest { path: String, param: Option<String> },
}

/// The path of a known release.
pub open spec fn known_release_path(
    channel: Seq<char>,
    version: Seq<char>,
    asset: Seq<char>,
    os: Seq<char>,
    arch: Seq<char>,
) -> Seq<char> {
    "/api/releases/"@ + channel + "/"@ + version + "/"@ + asset + "-"@ + os + "-"@ + arch
        + ".gz?update=1"@
}

/// The path that tells the latest release.
pub open spec fn latest_release_path(asset: Seq<char>, os: Seq<char>, arch: Seq<char>) -> Seq<
    char,
> {
    "/api/releases/latest?asset="@ + asset + "&os="@ + os + "&arch="@ + arch
}

/// The name of a channel in paths. Without a channel, the stable one is meant.
pub open spec fn channel_name(channel: Option<&ReleaseChannel>) -> Seq<char> {
    match channel {
        Some(channel) => channel.dev_name@,
        None => "stable"@,
    }
}

/// A text, if there is one, as plain values.
pub open spec fn text_of(text: Option<String>) -> Option<Seq<char>> {
    match text {
        Some(text) => Some(text@),
        None => None,
    }
}

/// A message to the user, and the answers to choose from.
#[derive(Debug)]
pub struct Prompt {
    pub message: String,
    pub detail: String,
    pub answers: Vec<String>,
}

/// What to tell a user who checks for updates: where the application was installed by other means,
/// the given explanation, and otherwise that there are none.
pub fn check(explanation: Option<String>) -> (prompt: Prompt)
    ensures
        match explanation {
            Some(explanation) => {
                &&& prompt.message@ == "Zed was installed via a package manager."@
                &&& prompt.detail@ == explanation@
            },
            None => {
                &&& prompt.message@ == "Could not check for updates"@
                &&& prompt.detail@ == "Auto-updates disabled for non-bundled app."@
            },
        },
        prompt.answers@.len() == 1,
        prompt.answers@[0]@ == "Ok"@,
{
    let mut answers: Vec<String> = Vec::new();
    answers.push("Ok".to_owned());
    match explanation {
        Some(explanation) => Prompt {
            message: "Zed was installed via a package manager.".to_owned(),
            detail: explanation,
            answers,
        },
        None => Prompt {
            message: "Could not check for updates".to_owned(),
            detail: "Auto-updates disabled for non-bundled app.".to_owned(),
            answers,
        },
    }
}

/// Where release notes are found.
#[derive(Debug)]
pub enum ReleaseNotes {
    /// At a path on the server.
    Path(String),
    /// At a full address.
    Url(String),
}

/// The path of the notes of a release.
pub open spec fn release_notes_path(channel: Seq<char>, version: Seq<char>) -> Seq<char> {
    "/releases/"@ + channel + "/"@ + version
}

/// Finds the notes of the current release. Those of a channel without numbered releases are its
/// commits. Where there is no updater or no channel, there are none.
pub fn view_release_notes(
    auto_updater: Option<&AutoUpdater>,
    release_channel: Option<&ReleaseChannel>,
) -> (notes: Option<ReleaseNotes>)
    ensures
        match (auto_updater, release_channel) {
            (Some(updater), Some(channel)) => match channel.stage {
                ReleaseStage::Stable | ReleaseStage::Preview => {
                    &&& notes matches Some(ReleaseNotes::Path(path))
                    &&& path@ == release_notes_path(
                        channel.dev_name@,
                        updater.current_version.text(),
                    )
                },
                ReleaseStage::Nightly => {
                    &&& notes matches Some(ReleaseNotes::Url(url))
                    &&& url@ == "https://github.com/zed-industries/zed/commits/nightly/"@
                },
                ReleaseStage::Dev => {
                    &&& notes matches Some(ReleaseNotes::Url(url))
                    &&& url@ == "https://github.com/zed-industries/zed/commits/main/"@
                },
            },
            _ => notes is None,
        },
{
    let updater = match auto_updater {
        Some(updater) => updater,
        None => {
            return None;
        },
    };
    let channel = match release_channel {
        Some(channel) => channel,
        None => {
            return None;
        },
    };
    match channel.stage {
        ReleaseStage::Stable | ReleaseStage::Preview => {
            let mut path = "/releases/".to_owned();
            path.append(channel.dev_name.as_str());
            path.append("/");
            path.append(updater.current_version.to_string().as_str());
            Some(ReleaseNotes::Path(path))
        },
        ReleaseStage::Nightly => Some(
            ReleaseNotes::Url(
                "https://github.com/zed-industries/zed/commits/nightly/".to_owned(),
            ),
        ),
        ReleaseStage::Dev => Some(
            ReleaseNotes::Url("https://github.com/zed-industries/zed/commits/main/".to_owned()),
        ),
    }
}

/// Whether a response of the server is a success.
pub open spec fn spec_is_success(status: u16) -> bool {
    200 <= status < 300
}

/// Tells whether a response of the server is a success.
pub fn is_success(status: u16) -> (result: bool)
    ensures
        result == spec_is_success(status),
{
    200 <= status && status < 300
}

/// A request for a remote server's binary.
#[derive(Debug)]
pub struct UpdateRequestBody {
    pub installation_id: Option<String>,
    pub release_channel: Option<String>,
    pub telemetry: bool,
    pub is_staff: Option<bool>,
    pub destination: String,
}

/// The request for a remote server's binary. It names the channel, and nothing of the user.
pub fn build_remote_server_update_request_body(
    release_channel: Option<&ReleaseChannel>,
) -> (body: UpdateRequestBody)
    ensures
        body.installation_id is None,
        text_of(body.release_channel) == match release_channel {
            Some(channel) => Some(channel.display_name@),
            None => None,
        },
        !body.telemetry,
        body.is_staff is None,
        body.destination@ == "remote"@,
{
    let release_channel = match release_channel {
        Some(channel) => Some(channel.display_name.clone()),
        None => None,
    };
    UpdateRequestBody {
        installation_id: None,
        release_channel,
        telemetry: false,
        is_staff: None,
        destination: "remote".to_owned(),
    }
}

/// Where a downloaded remote server is kept: a directory of the channel, in it one of the platform,
/// and in it a file of the version.
#[derive(Debug)]
pub struct RemoteServerPath {
    pub channel_dir: String,
    pub platform_dir: String,
    pub file: String,
}

/// Finds where a downloaded remote server is kept.
pub fn remote_server_path(
    release_channel: &ReleaseChannel,
    os: &str,
    arch: &str,
    release: &JsonRelease,
) -> (path: RemoteServerPath)
    ensures
        path.channel_dir@ == release_channel.dev_name@,
        path.platform_dir@ == os@ + "-"@ + arch@,
        path.file@ == release.version@ + ".gz"@,
{
    let mut platform_dir = os.to_owned();
    platform_dir.append("-");
    platform_dir.append(arch);
    let mut file = release.version.clone();
    file.append(".gz");
    RemoteServerPath { channel_dir: release_channel.dev_name.clone(), platform_dir, file }
}

/// The address of a query for the latest release, given the address of its path.
pub fn with_query_param(url: String, param: &Option<String>) -> (full: String)
    ensures
        full@ == match *param {
            Some(param) => url@ + "&"@ + param@,
            None => url@,
        },
{
    let mut full = url;
    if let Some(param) = param {
        full.append("&");
        full.append(param.as_str());
    }
    full
}

impl AutoUpdater {
    /// The version of the running application.
    pub fn current_version(&self) -> (version: SemanticVersion)
        ensures
            version == self.current_version,
    {
        self.current_version
    }

    /// How far the update got.
    pub fn status(&self) -> (status: AutoUpdateStatus)
        ensures
            status == self.status,
    {
        self.status.clone()
    }

    /// Dismisses what is shown of an update, and returns whether anything was.
    pub fn dismiss(&mut self) -> (dismissed: bool)
        ensures
            dismissed == !(old(self).status is Idle),
            *final(self) == (AutoUpdater { status: AutoUpdateStatus::Idle, ..*old(self) }),
    {
        if let AutoUpdateStatus::Idle = self.status {
            return false;
        }
        self.status = AutoUpdateStatus::Idle;
        true
    }

    /// How a release is found. A known version is on its channel's path; otherwise the server is asked
    /// for the latest.
    pub fn get_release(
        asset: &str,
        os: &str,
        arch: &str,
        version: Option<SemanticVersion>,
        release_channel: Option<&ReleaseChannel>,
    ) -> (query: ReleaseQuery)
        ensures
            match version {
                Some(known) => {
                    &&& query matches ReleaseQuery::Known { version, path }
                    &&& version@ == known.text()
                    &&& path@ == known_release_path(
                        channel_name(release_channel),
                        known.text(),
                        asset@,
                        os@,
                        arch@,
                    )
                },
                None => {
                    &&& query matches ReleaseQuery::Latest { path, param }
                    &&& path@ == latest_release_path(asset@, os@, arch@)
                    &&& text_of(param) == match release_channel {
                        Some(channel) => text_of(channel.release_query_param),
                        None => None,
                    }
                },
            },
    {
        match version {
            Some(version) => {
                let text = version.to_string();
                let mut path = "/api/releases/".to_owned();
                match release_channel {
                    Some(channel) => {
                        path.append(channel.dev_name.as_str());
                    },
                    None => {
                        path.append("stable");
                    },
                }
                path.append("/");
                path.append(text.as_str());
                path.append("/");
                path.append(asset);
                path.append("-");
                path.append(os);
                path.append("-");
                path.append(arch);
                path.append(".gz?update=1");
                ReleaseQuery::Known { version: text, path }
            },
            None => {
                let mut path = "/api/releases/latest?asset=".to_owned();
                path.append(asset);
                path.append("&os=");
                path.append(os);
                path.append("&arch=");
                path.append(arch);
                let param = match release_channel {
                    Some(channel) => match &channel.release_query_param {
                        Some(param) => Some(param.clone()),
                        None => None,
                    },
                    None => None,
                };
                ReleaseQuery::Latest { path, param }
            },
        }
    }

    /// How the release of a remote server is found, once updates are initialized.
    pub fn remote_server_release(
        updater: Option<&AutoUpdater>,
        os: &str,
        arch: &str,
        release_channel: &ReleaseChannel,
        version: Option<SemanticVersion>,
    ) -> (result: Result<ReleaseQuery, UpdateError>)
        ensures
            match updater {
                Some(_) => {
                    &&& result matches Ok(query)
                    &&& match version {
                        Some(known) => {
                            &&& query matches ReleaseQuery::Known { version, path }
                            &&& version@ == known.text()
                            &&& path@ == known_release_path(
                                release_channel.dev_name@,
                                known.text(),
                                REMOTE_SERVER_ASSET@,
                                os@,
                                arch@,
                            )
                        },
                        None => {
                            &&& query matches ReleaseQuery::Latest { path, param }
                            &&& path@ == latest_release_path(REMOTE_SERVER_ASSET@, os@, arch@)
                            &&& text_of(param) == text_of(release_channel.release_query_param)
                        },
                    }
                },
                None => result matches Err(error) && error == UpdateError::NotInitialized,
            },
    {
        match updater {
            Some(_) => Ok(
                Self::get_release(REMOTE_SERVER_ASSET, os, arch, version, Some(release_channel)),
            ),
            None => Err(UpdateError::NotInitialized),
        }
    }

    /// The release that the server answered with, given what its answer describes, if it describes a
    /// release.
    pub fn fetched_release(status: u16, described: Option<JsonRelease>) -> (result: Result<
        JsonRelease,
        UpdateError,
    >)
        ensures
            result == if !spec_is_success(status) {
                Err(UpdateError::FetchFailed)
            } else {
                match described {
                    Some(release) => Ok(release),
                    None => Err(UpdateError::Unreadable),
                }
            },
    {
        if !is_success(status) {
            return Err(UpdateError::FetchFailed);
        }
        match described {
            Some(release) => Ok(release),
            None => Err(UpdateError::Unreadable),
        }
    }

    /// Whether the server lets a release be downloaded.
    pub fn download_remote_server_binary(status: u16) -> (result: Result<(), UpdateError>)
        ensures
            result == if spec_is_success(status) {
                Ok::<(), UpdateError>(())
            } else {
                Err(UpdateError::DownloadFailed)
            },
    {
        if is_success(status) {
            Ok(())
        } else {
            Err(UpdateError::DownloadFailed)
        }
    }

    /// Tells whether an installed update is to be announced, given what is stored of it.
    pub fn should_show_update_notification(&self, stored: &Option<String>) -> (result: bool)
        ensures
            result == (*stored is Some),
    {
        stored.is_some()
    }
}

} // verus!
