//! What holds of updates, of the dialogs around them, and of calls.

use std::sync::Arc;
use vstd::prelude::*;

use crate::auto_update::{
    build_remote_server_update_request_body, channel_name, check, is_success, known_release_path,
    latest_release_path, release_notes_path, remote_server_path, view_release_notes,
    with_query_param, AutoUpdateStatus, AutoUpdater, JsonRelease, Prompt, ReleaseChannel,
    ReleaseNotes, ReleaseQuery, ReleaseStage, RemoteServerPath, SemanticVersion, UpdateError,
    UpdateRequestBody, VersionCheckType,
};
use crate::collab::{known_main, pick_default_screen, ScreenMetadata};
use crate::context_server_tool::ContextServerTool;
use crate::decimal::{decimal, law_written_number_reads_back, value_of};
use crate::edit_prediction_registry::{editor_opened, EditorRegistry};
use crate::onboarding_modal::{Overflow, SignInStatus, ZedPredictModal};

verus! {

/// A version in writing has two dots, and the numbers before, between and behind them are its own.
pub proof fn law_written_version_reads_back(version: SemanticVersion) -> (dots: (int, int))
    ensures
        ({
            let text = version.text();
            let (first, second) = dots;
            &&& 0 < first < second - 1
            &&& second < text.len() - 1
            &&& text[first] == '.'
            &&& text[second] == '.'
            &&& forall|i: int|
                0 <= i < text.len() && i != first && i != second ==> (#[trigger] text[i]) != '.'
            &&& value_of(text.take(first)) == version.major
            &&& value_of(text.subrange(first + 1, second)) == version.minor
            &&& value_of(text.skip(second + 1)) == version.patch
        }),
{
    let text = version.text();
    let major = decimal(version.major as nat);
    let minor = decimal(version.minor as nat);
    let patch = decimal(version.patch as nat);
    law_written_number_reads_back(version.major as nat);
    law_written_number_reads_back(version.minor as nat);
    law_written_number_reads_back(version.patch as nat);
    let first: int = major.len() as int;
    let second: int = first + 1 + minor.len();
    assert(text.take(first) =~= major);
    assert(text.subrange(first + 1, second) =~= minor);
    assert(text.skip(second + 1) =~= patch);
    assert forall|i: int| 0 <= i < text.len() && i != first && i != second implies (
    #[trigger] text[i]) != '.' by {
        if i < first {
            assert(text[i] == major[i]);
        } else if i < second {
            assert(text[i] == minor[i - first - 1]);
        } else {
            assert(text[i] == patch[i - second - 1]);
        }
    }
    (first, second)
}

/// The text of a version is what is written.
pub proof fn law_version_is_written(version: &SemanticVersion, text: String)
    requires
        call_ensures(SemanticVersion::to_string, (version,), text),
    ensures
        text@ == decimal(version.major as nat) + seq!['.'] + decimal(version.minor as nat) + seq![
            '.',
        ] + decimal(version.patch as nat),
{
}

/// Versions are the same if they are commits of the same name or have the same three numbers. A commit
/// is never the same as a numbered version. To be the same is an equivalence.
pub proof fn law_same_versions(a: VersionCheckType, b: VersionCheckType, c: VersionCheckType)
    ensures
        a.same(a),
        a.same(b) == b.same(a),
        a.same(b) && b.same(c) ==> a.same(c),
        a is Sha && b is Semantic ==> !a.same(b),
        a is Sha && b is Sha ==> a.same(b) == (a->Sha_0.0@ == b->Sha_0.0@),
        a is Semantic && b is Semantic ==> a.same(b) == (a->Semantic_0.major
            == b->Semantic_0.major && a->Semantic_0.minor == b->Semantic_0.minor
            && a->Semantic_0.patch == b->Semantic_0.patch),
{
}

/// An update counts as installed in one state only.
pub proof fn law_installed(status: &AutoUpdateStatus, result: bool)
    requires
        call_ensures(AutoUpdateStatus::is_updated, (status,), result),
    ensures
        status is Idle || status is Checking || status is Downloading || status is Installing
            || status is Errored ==> !result,
        status is Updated ==> result,
{
}

/// Where the parts of a known release's path stand: channel, version and asset are directories and a
/// file name, and platform and architecture follow the asset.
pub proof fn law_path_of_a_known_release(
    channel: Seq<char>,
    version: Seq<char>,
    asset: Seq<char>,
    os: Seq<char>,
    arch: Seq<char>,
)
    ensures
        ({
            let path = known_release_path(channel, version, asset, os, arch);
            let c: int = 14;
            let v: int = c + channel.len() + 1;
            let a: int = v + version.len() + 1;
            let o: int = a + asset.len() + 1;
            let r: int = o + os.len() + 1;
            let e: int = r + arch.len();
            &&& path.len() == e + 12
            &&& path.take(14) == seq![
                '/', 'a', 'p', 'i', '/', 'r', 'e', 'l', 'e', 'a', 's', 'e', 's', '/',
            ]
            &&& path.subrange(c, v - 1) == channel
            &&& path[v - 1] == '/'
            &&& path.subrange(v, a - 1) == version
            &&& path[a - 1] == '/'
            &&& path.subrange(a, o - 1) == asset
            &&& path[o - 1] == '-'
            &&& path.subrange(o, r - 1) == os
            &&& path[r - 1] == '-'
            &&& path.subrange(r, e) == arch
            &&& path.skip(e) == seq!['.', 'g', 'z', '?', 'u', 'p', 'd', 'a', 't', 'e', '=', '1']
        }),
{
    reveal_strlit("/api/releases/");
    reveal_strlit("/");
    reveal_strlit("-");
    reveal_strlit(".gz?update=1");
    let path = known_release_path(channel, version, asset, os, arch);
    let c: int = 14;
    let v: int = c + channel.len() + 1;
    let a: int = v + version.len() + 1;
    let o: int = a + asset.len() + 1;
    let r: int = o + os.len() + 1;
    let e: int = r + arch.len();
    assert(path.len() == e + 12);
    assert(path.take(14) =~= seq![
        '/', 'a', 'p', 'i', '/', 'r', 'e', 'l', 'e', 'a', 's', 'e', 's', '/',
    ]);
    assert(path.subrange(c, v - 1) =~= channel);
    assert(path.subrange(v, a - 1) =~= version);
    assert(path.subrange(a, o - 1) =~= asset);
    assert(path.subrange(o, r - 1) =~= os);
    assert(path.subrange(r, e) =~= arch);
    assert(path.skip(e) =~= seq!['.', 'g', 'z', '?', 'u', 'p', 'd', 'a', 't', 'e', '=', '1']);
}

/// Where the parts of the query for the latest release stand.
pub proof fn law_path_of_the_latest_release(asset: Seq<char>, os: Seq<char>, arch: Seq<char>)
    ensures
        ({
            let path = latest_release_path(asset, os, arch);
            let a: int = 27;
            let o: int = a + asset.len() + 4;
            let r: int = o + os.len() + 6;
            &&& path.len() == r + arch.len()
            &&& path.take(27) == seq![
                '/', 'a', 'p', 'i', '/', 'r', 'e', 'l', 'e', 'a', 's', 'e', 's', '/', 'l', 'a', 't',
                'e', 's', 't', '?', 'a', 's', 's', 'e', 't', '=',
            ]
            &&& path.subrange(a, o - 4) == asset
            &&& path.subrange(o - 4, o) == seq!['&', 'o', 's', '=']
            &&& path.subrange(o, r - 6) == os
            &&& path.subrange(r - 6, r) == seq!['&', 'a', 'r', 'c', 'h', '=']
            &&& path.skip(r) == arch
        }),
{
    reveal_strlit("/api/releases/latest?asset=");
    reveal_strlit("&os=");
    reveal_strlit("&arch=");
    let path = latest_release_path(asset, os, arch);
    let a: int = 27;
    let o: int = a + asset.len() + 4;
    let r: int = o + os.len() + 6;
    assert(path.len() == r + arch.len());
    assert(path.take(27) =~= seq![
        '/', 'a', 'p', 'i', '/', 'r', 'e', 'l', 'e', 'a', 's', 'e', 's', '/', 'l', 'a', 't', 'e',
        's', 't', '?', 'a', 's', 's', 'e', 't', '=',
    ]);
    assert(path.subrange(a, o - 4) =~= asset);
    assert(path.subrange(o - 4, o) =~= seq!['&', 'o', 's', '=']);
    assert(path.subrange(o, r - 6) =~= os);
    assert(path.subrange(r - 6, r) =~= seq!['&', 'a', 'r', 'c', 'h', '=']);
    assert(path.skip(r) =~= arch);
}

/// Where the parts of the path of release notes stand.
pub proof fn law_path_of_release_notes(channel: Seq<char>, version: Seq<char>)
    ensures
        ({
            let path = release_notes_path(channel, version);
            let v: int = 11 + channel.len() as int;
            &&& path.len() == v + version.len()
            &&& path.take(10) == seq!['/', 'r', 'e', 'l', 'e', 'a', 's', 'e', 's', '/']
            &&& path.subrange(10, v - 1) == channel
            &&& path[v - 1] == '/'
            &&& path.skip(v) == version
        }),
{
    reveal_strlit("/releases/");
    reveal_strlit("/");
    let path = release_notes_path(channel, version);
    let v: int = 11 + channel.len() as int;
    assert(path.take(10) =~= seq!['/', 'r', 'e', 'l', 'e', 'a', 's', 'e', 's', '/']);
    assert(path.subrange(10, v - 1) =~= channel);
    assert(path.skip(v) =~= version);
}

/// A channel goes by its own name, and without one the stable channel is meant.
pub proof fn law_name_of_a_channel(channel: ReleaseChannel)
    ensures
        channel_name(Some(&channel)) == channel.dev_name@,
        channel_name(None) == seq!['s', 't', 'a', 'b', 'l', 'e'],
{
    reveal_strlit("stable");
    assert("stable"@ =~= seq!['s', 't', 'a', 'b', 'l', 'e']);
}

/// A response is a success exactly if its number is in the two hundreds.
pub proof fn law_success(status: u16, result: bool)
    requires
        call_ensures(is_success, (status,), result),
    ensures
        result <==> status / 100 == 2,
{
}

/// A query for a known version names it and never asks for the latest; without a version the latest is
/// asked for, and the channel's own parameter goes along. How a release is found depends on the channel
/// by its name and parameter only.
pub proof fn law_release_query(
    asset: &str,
    os: &str,
    arch: &str,
    version: Option<SemanticVersion>,
    channel: Option<&ReleaseChannel>,
    query: ReleaseQuery,
)
    requires
        call_ensures(AutoUpdater::get_release, (asset, os, arch, version, channel), query),
    ensures
        version is Some <==> query is Known,
        version is None <==> query is Latest,
        query matches ReleaseQuery::Known { version: text, path } ==> {
            &&& text@ == version->0.text()
            &&& channel is Some ==> path@ == known_release_path(
                channel->0.dev_name@,
                text@,
                asset@,
                os@,
                arch@,
            )
            &&& channel is None ==> path@ == known_release_path("stable"@, text@, asset@, os@, arch@)
        },
        query matches ReleaseQuery::Latest { path, param } ==> {
            &&& path@ == latest_release_path(asset@, os@, arch@)
            &&& (param is Some) == (channel is Some && channel->0.release_query_param is Some)
            &&& param is Some ==> param->0@ == channel->0.release_query_param->0@
        },
{
}

/// Remote servers are found like any release, under an asset of their own and on the channel given, but
/// only once there is an updater.
pub proof fn law_remote_server_release(
    updater: Option<&AutoUpdater>,
    os: &str,
    arch: &str,
    channel: &ReleaseChannel,
    version: Option<SemanticVersion>,
    result: Result<ReleaseQuery, UpdateError>,
)
    requires
        call_ensures(
            AutoUpdater::remote_server_release,
            (updater, os, arch, channel, version),
            result,
        ),
    ensures
        updater is Some <==> result is Ok,
        result matches Err(error) ==> error == UpdateError::NotInitialized,
        result matches Ok(query) ==> {
            &&& version is Some <==> query is Known
            &&& query matches ReleaseQuery::Known { version: text, path } ==> text@
                == version->0.text() && path@ == known_release_path(
                channel.dev_name@,
                version->0.text(),
                "zed-remote-server"@,
                os@,
                arch@,
            )
            &&& query matches ReleaseQuery::Latest { path, param } ==> {
                &&& path@ == latest_release_path("zed-remote-server"@, os@, arch@)
                &&& (param is Some) == (channel.release_query_param is Some)
                &&& param is Some ==> param->0@ == channel.release_query_param->0@
            }
        },
{
}

/// A parameter is added behind an ampersand; without one an address stays.
pub proof fn law_query_param(url: String, param: &Option<String>, full: String)
    requires
        call_ensures(with_query_param, (url, param), full),
    ensures
        full@.take(url@.len() as int) == url@,
        param is None ==> full@ == url@,
        param is Some ==> full@.len() == url@.len() + 1 + param->0@.len() && full@[url@.len() as int]
            == '&' && full@.skip(url@.len() as int + 1) == param->0@,
{
    reveal_strlit("&");
    assert(full@.take(url@.len() as int) =~= url@);
    if param is Some {
        assert(full@.skip(url@.len() as int + 1) =~= param->0@);
    }
}

/// A release is what a successful answer describes. An answer that is no success is refused as such,
/// whatever it describes.
pub proof fn law_fetched_release(
    status: u16,
    described: Option<JsonRelease>,
    result: Result<JsonRelease, UpdateError>,
)
    requires
        call_ensures(AutoUpdater::fetched_release, (status, described), result),
    ensures
        result is Ok <==> status / 100 == 2 && described is Some,
        result matches Ok(release) ==> Some(release) == described,
        result matches Err(error) ==> error == if status / 100 == 2 {
            UpdateError::Unreadable
        } else {
            UpdateError::FetchFailed
        },
{
}

/// A download goes on exactly if the server agrees.
pub proof fn law_download(status: u16, result: Result<(), UpdateError>)
    requires
        call_ensures(AutoUpdater::download_remote_server_binary, (status,), result),
    ensures
        result is Ok <==> status / 100 == 2,
        result matches Err(error) ==> error == UpdateError::DownloadFailed,
{
}

/// There are release notes exactly if there are an updater and a channel. Those of numbered releases
/// are on the server, at the path of the channel and of the current version; the others are the commits
/// of a branch.
pub proof fn law_release_notes(
    updater: Option<&AutoUpdater>,
    channel: Option<&ReleaseChannel>,
    notes: Option<ReleaseNotes>,
)
    requires
        call_ensures(view_release_notes, (updater, channel), notes),
    ensures
        notes is Some <==> updater is Some && channel is Some,
        notes matches Some(ReleaseNotes::Path(path)) ==> {
            &&& channel->0.stage == ReleaseStage::Stable || channel->0.stage
                == ReleaseStage::Preview
            &&& path@ == release_notes_path(
                channel->0.dev_name@,
                updater->0.current_version.text(),
            )
        },
        notes matches Some(ReleaseNotes::Url(url)) ==> {
            &&& channel->0.stage == ReleaseStage::Nightly || channel->0.stage == ReleaseStage::Dev
            &&& url@.len() > 0
            &&& channel->0.stage == ReleaseStage::Nightly ==> url@
                == "https://github.com/zed-industries/zed/commits/nightly/"@
            &&& channel->0.stage == ReleaseStage::Dev ==> url@
                == "https://github.com/zed-industries/zed/commits/main/"@
        },
{
    reveal_strlit("https://github.com/zed-industries/zed/commits/nightly/");
    reveal_strlit("https://github.com/zed-industries/zed/commits/main/");
}

/// An explanation is handed on to the user as it is, and otherwise the user hears that the application is
/// not updated. Either way the only answer is to agree.
pub proof fn law_manual_check(explanation: Option<String>, prompt: Prompt)
    requires
        call_ensures(check, (explanation,), prompt),
    ensures
        prompt.answers@.len() == 1,
        prompt.answers@[0]@ == seq!['O', 'k'],
        explanation is Some ==> prompt.detail@ == explanation->0@ && prompt.message@
            == "Zed was installed via a package manager."@,
        explanation is None ==> prompt.detail@ == "Auto-updates disabled for non-bundled app."@
            && prompt.message@ == "Could not check for updates"@,
{
    reveal_strlit("Ok");
    assert("Ok"@ =~= seq!['O', 'k']);
}

/// A request for a remote server says which channel it is for, as readers name it, and nothing of who
/// asks.
pub proof fn law_remote_server_request(channel: Option<&ReleaseChannel>, body: UpdateRequestBody)
    requires
        call_ensures(build_remote_server_update_request_body, (channel,), body),
    ensures
        body.installation_id is None && body.is_staff is None && !body.telemetry,
        body.destination@ == seq!['r', 'e', 'm', 'o', 't', 'e'],
        (body.release_channel is Some) == (channel is Some),
        channel is Some ==> body.release_channel->0@ == channel->0.display_name@,
{
    reveal_strlit("remote");
    assert("remote"@ =~= seq!['r', 'e', 'm', 'o', 't', 'e']);
}

/// A remote server is kept by channel, by platform and by version.
pub proof fn law_place_of_a_remote_server(
    channel: &ReleaseChannel,
    os: &str,
    arch: &str,
    release: &JsonRelease,
    path: RemoteServerPath,
)
    requires
        call_ensures(remote_server_path, (channel, os, arch, release), path),
    ensures
        path.channel_dir@ == channel.dev_name@,
        path.platform_dir@.len() == os@.len() + 1 + arch@.len(),
        path.platform_dir@.take(os@.len() as int) == os@,
        path.platform_dir@[os@.len() as int] == '-',
        path.platform_dir@.skip(os@.len() as int + 1) == arch@,
        path.file@.len() == release.version@.len() + 3,
        path.file@.take(release.version@.len() as int) == release.version@,
        path.file@.skip(release.version@.len() as int) == seq!['.', 'g', 'z'],
{
    reveal_strlit("-");
    reveal_strlit(".gz");
    assert(path.platform_dir@.take(os@.len() as int) =~= os@);
    assert(path.platform_dir@.skip(os@.len() as int + 1) =~= arch@);
    assert(path.file@.take(release.version@.len() as int) =~= release.version@);
    assert(path.file@.skip(release.version@.len() as int) =~= seq!['.', 'g', 'z']);
}

/// What is dismissed is gone, and nothing else is. To dismiss again does nothing.
pub proof fn law_dismissed(updater: &mut AutoUpdater, dismissed: bool)
    requires
        call_ensures(AutoUpdater::dismiss, (updater,), dismissed),
    ensures
        final(updater).status is Idle,
        final(updater).current_version == old(updater).current_version,
        dismissed <==> old(updater).status != final(updater).status,
{
}

/// What an updater tells is what it holds.
pub proof fn law_updater_tells(
    updater: &AutoUpdater,
    version: SemanticVersion,
    status: AutoUpdateStatus,
    stored: &Option<String>,
    shows: bool,
)
    requires
        call_ensures(AutoUpdater::current_version, (updater,), version),
        call_ensures(AutoUpdater::status, (updater,), status),
        call_ensures(AutoUpdater::should_show_update_notification, (updater, stored), shows),
    ensures
        *updater == (AutoUpdater { status, current_version: version }),
        shows <==> stored is Some,
{
}

/// A full editor in a window counts from when it is opened, at its window; any other leaves everything as
/// it is. Other editors stay as they are.
pub proof fn law_opened_editor(
    editors: Map<u64, u64>,
    editor: u64,
    is_full: bool,
    window: Option<u64>,
    other: u64,
)
    ensures
        ({
            let opened = editor_opened(editors, editor, is_full, window);
            &&& is_full && window is Some ==> opened.contains_key(editor) && opened[editor]
                == window->0
            &&& !is_full || window is None ==> opened == editors
            &&& other != editor ==> opened.contains_key(other) == editors.contains_key(other)
                && opened[other] == editors[other]
        }),
{
}

/// A provider is assigned exactly to what counts from then on. Once closed, an editor has no window, and
/// others keep theirs.
pub proof fn law_registered_editors(
    registry: &mut EditorRegistry,
    editor: u64,
    is_full: bool,
    window: Option<u64>,
    assign: bool,
    other: u64,
)
    requires
        call_ensures(EditorRegistry::observe_new, (registry, editor, is_full, window), assign),
    ensures
        assign <==> is_full && window is Some,
        assign ==> final(registry)@.contains_key(editor) && final(registry)@[editor] == window->0,
        !assign ==> final(registry)@ == old(registry)@,
        other != editor ==> final(registry)@.contains_key(other) == old(registry)@.contains_key(
            other,
        ) && final(registry)@[other] == old(registry)@[other],
{
}

/// Once closed, an editor is no longer registered, and others stay.
pub proof fn law_released_editor(registry: &mut EditorRegistry, editor: u64, other: u64)
    requires
        call_ensures(EditorRegistry::on_release, (registry, editor), ()),
    ensures
        !final(registry)@.contains_key(editor),
        other != editor ==> final(registry)@.contains_key(other) == old(registry)@.contains_key(
            other,
        ) && final(registry)@[other] == old(registry)@[other],
{
}

/// The window of an editor is the one it is registered at.
pub proof fn law_window_of_an_editor(registry: &EditorRegistry, editor: u64, window: Option<u64>)
    requires
        call_ensures(EditorRegistry::window_of, (registry, editor), window),
    ensures
        window is Some <==> registry@.contains_key(editor),
        window is Some ==> registry@[editor] == window->0,
{
}

/// At first no editor is registered.
pub proof fn law_no_editor_at_first(registry: EditorRegistry, editor: u64)
    requires
        call_ensures(EditorRegistry::new, (), registry),
    ensures
        !registry@.contains_key(editor),
{
}

/// Signing in waits until it is finished, and then has succeeded or is as if it had never begun. The rest
/// of the dialog stays.
pub proof fn law_signing_in(
    opened: &mut ZedPredictModal,
    waiting: &mut ZedPredictModal,
    succeeded: bool,
)
    requires
        call_ensures(ZedPredictModal::sign_in, (opened,), ()),
        *final(opened) == *old(waiting),
        call_ensures(ZedPredictModal::sign_in_finished, (waiting, succeeded), ()),
    ensures
        old(waiting).sign_in_status == SignInStatus::Waiting,
        final(waiting).data_collection_expanded == old(opened).data_collection_expanded,
        succeeded ==> final(waiting).sign_in_status == SignInStatus::SignedIn,
        !succeeded ==> final(waiting).sign_in_status == SignInStatus::Idle,
{
}

/// The dialog opens idle and collapsed, and only an expanded one scrolls.
pub proof fn law_dialog(
    opened: ZedPredictModal,
    modal: &ZedPredictModal,
    overflow: Overflow,
    url: String,
)
    requires
        call_ensures(ZedPredictModal::new, (), opened),
        call_ensures(ZedPredictModal::overflow, (modal,), overflow),
        call_ensures(ZedPredictModal::view_blog, (modal,), url),
    ensures
        opened.sign_in_status == SignInStatus::Idle && !opened.data_collection_expanded,
        overflow == Overflow::Scroll <==> modal.data_collection_expanded,
        url@ == "https://zed.dev/blog/edit-prediction"@,
{
}

/// A tool keeps the manager, the server and the tool that it was made of.
pub proof fn law_tool_of_a_server<M, T>(
    server_manager: M,
    server_id: Arc<str>,
    tool: T,
    server_tool: ContextServerTool<M, T>,
)
    requires
        call_ensures(ContextServerTool::<M, T>::new, (server_manager, server_id, tool), server_tool),
    ensures
        server_tool.server_manager == server_manager,
        server_tool.server_id == server_id,
        server_tool.tool == tool,
{
}

/// A screen is known to be the main one only if its metadata says so.
pub proof fn law_known_main_screen(source: Option<ScreenMetadata>)
    ensures
        source is None ==> !known_main(source),
        source is Some ==> known_main(source) == (source->0.is_main == Some(true)),
{
}

/// A screen is picked whenever there is any. If one is known to be the main one, the first such is picked,
/// and otherwise the first of all.
pub proof fn law_picked_screen(
    sources: &Vec<Option<ScreenMetadata>>,
    picked: Option<usize>,
    k: int,
)
    requires
        call_ensures(pick_default_screen, (sources,), picked),
        0 <= k < sources@.len(),
    ensures
        picked is Some,
        picked->0 < sources@.len(),
        known_main(sources@[k]) ==> known_main(sources@[picked->0 as int]) && picked->0 <= k,
        !known_main(sources@[picked->0 as int]) ==> picked->0 == 0,
{
}

} // verus!
