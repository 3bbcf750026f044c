//! Downloading a version and launching it. The flow alternates requests,
//! file operations and process starts with decisions; the decisions are a
//! state machine here. The caller performs each action and reports what
//! happened; the machine answers with the next action, until `Finish`.
use vstd::prelude::*;
use crate::checksum::{
    entries_of_lines, lemma_table_hash_is_listed_hash, lines, listed_hash, lookup, sha256,
    ChecksumTable,
};
use crate::error::{ErrorView, LauncherError};
use crate::release::GithubRelease;
use crate::text::{
    chars_eq, chars_eq_ignore_ascii_case, chars_of, string_from_chars, decimal, eq_ignore_case, eq_ignore_ascii_case,
    int_decimal, is_whitespace, is_ws, owned, push_decimal, push_i32, str_eq, all_ascii,
    lemma_eq_ignore_case_lowered, hex_lower,
};

verus! {

broadcast use vstd::string::group_string_axioms;

// ---------------------------------------------------------------------------
// Names.
// ---------------------------------------------------------------------------

/// The GitHub API listing of the payload's releases.
pub open spec fn releases_url() -> Seq<char> {
    "https://api.github.com/repos/luvettee/FemboyLose/releases"@
}

/// The GitHub API address of one release, by tag.
pub open spec fn release_url(tag: Seq<char>) -> Seq<char> {
    "https://api.github.com/repos/luvettee/FemboyLose/releases/tags/"@ + tag
}

/// The asset that lists the release's checksums.
pub open spec fn sums_asset() -> Seq<char> {
    "SHA256SUMS.txt"@
}

/// The files installed, in the order they are installed.
pub open spec fn asset_file(i: int) -> Seq<char> {
    if i == 0 {
        "neverlose.dll"@
    } else if i == 1 {
        "neverlose-server.exe"@
    } else {
        "injector.exe"@
    }
}

/// How many files are installed.
pub open spec fn asset_count() -> int {
    3
}

/// Where a file is downloaded to before it is moved into place.
pub open spec fn temp_file(i: int) -> Seq<char> {
    asset_file(i) + ".download"@
}

/// The name a locked file is moved aside to.
pub open spec fn backup_file(name: Seq<char>, now_secs: u64) -> Seq<char> {
    name + "."@ + decimal(now_secs as nat) + ".old"@
}

/// The game folder looked for: the legacy branch for app 730, else the
/// standalone game.
pub open spec fn game_folder(appid: i32) -> Seq<char> {
    if appid == 730 {
        "Counter-Strike Global Offensive"@
    } else {
        "csgo legacy"@
    }
}

/// The mode the injector runs in: 2 (launch the legacy branch) or 1
/// (launch the standalone game) when launching automatically, else 3.
pub open spec fn headless_choice(appid: i32, auto_launch: bool) -> int {
    if auto_launch {
        if appid == 730 {
            2
        } else {
            1
        }
    } else {
        3
    }
}

/// The server's arguments: `--boot-config <id>` when a config is chosen.
pub open spec fn server_args(config_id: Option<i32>) -> Seq<Seq<char>> {
    match config_id {
        Some(id) => seq!["--boot-config"@, int_decimal(id as int)],
        None => Seq::empty(),
    }
}

/// The server executable.
pub open spec fn server_exe() -> Seq<char> {
    "neverlose-server.exe"@
}

/// The injector executable.
pub open spec fn injector_exe() -> Seq<char> {
    "injector.exe"@
}

/// A tag that selects no release: blank, or the placeholder `Unavailable`.
pub open spec fn tag_refused(tag: Seq<char>) -> bool {
    (forall|i: int| 0 <= i < tag.len() ==> is_ws(#[trigger] tag[i])) || tag == "Unavailable"@
}

/// The message for a refused tag.
pub open spec fn no_version_message() -> Seq<char> {
    "no release version is selected"@
}

/// The message for a release that lacks a file.
pub open spec fn missing_asset_message(release_tag: Seq<char>, name: Seq<char>) -> Seq<char> {
    "release "@ + release_tag + " is missing "@ + name
}

/// The message for a download whose hash is not the expected one.
pub open spec fn checksum_message(name: Seq<char>, expected: Seq<char>, actual: Seq<char>) -> Seq<
    char,
> {
    "checksum validation failed for downloaded "@ + name + " (expected "@ + expected + ", got "@
        + actual + ")"@
}

/// The message for a report that does not answer the action asked for.
pub open spec fn out_of_order_message() -> Seq<char> {
    "launch step reported out of order"@
}

/// The download address of the first asset whose name is `name`, ignoring
/// ASCII case.
pub open spec fn find_asset(assets: Seq<(Seq<char>, Seq<char>)>, name: Seq<char>) -> Option<
    Seq<char>,
>
    decreases assets.len(),
{
    if assets.len() == 0 {
        None
    } else if eq_ignore_case(assets[0].0, name) {
        Some(assets[0].1)
    } else {
        find_asset(assets.drop_first(), name)
    }
}

/// A Unicode control character (general category `Cc`), as std's
/// `char::is_control` defines it.
pub open spec fn is_control_char(c: char) -> bool {
    (c as int) <= 0x1f || (0x7f <= (c as int) && (c as int) <= 0x9f)
}

/// A character that cannot stand in a Windows file name: a control
/// character or one of `< > : " / \ | ? *`.
pub open spec fn path_forbidden(c: char) -> bool {
    is_control_char(c) || c == '<' || c == '>' || c == ':' || c == '"' || c == '/' || c == '\\'
        || c == '|' || c == '?' || c == '*'
}

/// A tag made safe as one path segment: every forbidden character becomes
/// `_`, and a result of `.` or `..` becomes `_`.
pub open spec fn sanitized_segment(tag: Seq<char>) -> Seq<char> {
    let m = tag.map_values(|c: char| if path_forbidden(c) { '_' } else { c });
    if m == "."@ || m == ".."@ {
        "_"@
    } else {
        m
    }
}

fn path_forbidden_char(c: char) -> (r: bool)
    ensures
        r == path_forbidden(c),
{
    c <= '\u{1f}' || ('\u{7f}' <= c && c <= '\u{9f}') || c == '<' || c == '>' || c == ':' || c
        == '"' || c == '/' || c == '\\' || c == '|' || c == '?' || c == '*'
}

/// The name of a version's install folder: the tag made safe as one path
/// segment (see `sanitized_segment`).
pub fn sanitize_path_segment(tag: &str) -> (r: String)
    ensures
        r@ == sanitized_segment(tag@),
{
    let cs = chars_of(tag);
    let mut out: Vec<char> = Vec::new();
    let mut i: usize = 0;
    while i < cs.len()
        invariant
            i <= cs@.len(),
            cs@ == tag@,
            out@ == tag@.take(i as int).map_values(
                |c: char|
                    if path_forbidden(c) {
                        '_'
                    } else {
                        c
                    },
            ),
        decreases cs@.len() - i,
    {
        let c = cs[i];
        let d = if path_forbidden_char(c) {
            '_'
        } else {
            c
        };
        out.push(d);
        assert(tag@.take(i + 1) =~= tag@.take(i as int).push(c));
        assert(out@ =~= tag@.take(i + 1).map_values(
            |c: char|
                if path_forbidden(c) {
                    '_'
                } else {
                    c
                },
        ));
        i = i + 1;
    }
    assert(tag@.take(tag@.len() as int) =~= tag@);
    let one: [char; 1] = ['.'];
    let two: [char; 2] = ['.', '.'];
    proof {
        reveal_strlit(".");
        reveal_strlit("..");
        reveal_strlit("_");
    }
    assert(one@ =~= "."@);
    assert(two@ =~= ".."@);
    if chars_eq(out.as_slice(), one.as_slice()) || chars_eq(out.as_slice(), two.as_slice()) {
        literal("_")
    } else {
        string_from_chars(out.as_slice())
    }
}

/// The cloud directory used, as path components: `nl_cloud` in the game
/// folder when one was found; `None` when none was, standing for the
/// launcher's own cloud directory.
pub open spec fn cloud_dir(game_dir: Option<Seq<char>>) -> Option<Seq<Seq<char>>> {
    match game_dir {
        Some(g) => Some(seq![g, "nl_cloud"@]),
        None => None,
    }
}

/// The views of optional path components.
pub open spec fn opt_components_view(o: Option<Vec<String>>) -> Option<Seq<Seq<char>>> {
    match o {
        Some(d) => Some(d@.map_values(|s: String| s@)),
        None => None,
    }
}

/// The cloud directory used for a game folder (see `cloud_dir`).
pub fn cloud_dir_for(game_dir: &Option<String>) -> (r: Option<Vec<String>>)
    ensures
        opt_components_view(r) == cloud_dir(opt_view(*game_dir)),
{
    match game_dir {
        Some(g) => {
            let mut d: Vec<String> = Vec::new();
            d.push(owned(g.as_str()));
            d.push(owned("nl_cloud"));
            assert(d@.map_values(|s: String| s@) =~= seq![g@, "nl_cloud"@]);
            Some(d)
        },
        None => None,
    }
}

/// Whether a file found in the install directory is a left-over backup of
/// a locked file, to be removed: a file with the extension `old`.
pub fn is_leftover_backup(is_file: bool, extension: Option<&str>) -> (r: bool)
    ensures
        r == (is_file && match extension {
            Some(e) => e@ == "old"@,
            None => false,
        }),
{
    match extension {
        Some(e) => is_file && str_eq(e, "old"),
        None => false,
    }
}

/// A background process stopped before files are replaced: its image name
/// (`taskkill /im <image> /f`) and how it is called in error messages.
#[derive(Debug)]
pub struct BackgroundProcess {
    pub image: String,
    pub description: String,
}

/// The background processes stopped before files are replaced, in order:
/// the injector, then the server.
pub fn background_processes() -> (r: Vec<BackgroundProcess>)
    ensures
        r@.len() == 2,
        r@[0].image@ == "injector.exe"@,
        r@[0].description@ == "injector"@,
        r@[1].image@ == "neverlose-server.exe"@,
        r@[1].description@ == "neverlose server"@,
{
    let mut r: Vec<BackgroundProcess> = Vec::new();
    r.push(BackgroundProcess { image: owned("injector.exe"), description: owned("injector") });
    r.push(
        BackgroundProcess {
            image: owned("neverlose-server.exe"),
            description: owned("neverlose server"),
        },
    );
    r
}

// ---------------------------------------------------------------------------
// Stages, events, actions.
// ---------------------------------------------------------------------------

/// Where one file's installation stands.
#[derive(Debug, Clone, Copy, PartialEq, Eq, Structural)]
pub enum AssetStep {
    /// Hashing the installed copy, to skip the download when it matches.
    CheckingExisting,
    /// Downloading to the temporary file.
    Downloading,
    /// Hashing the download.
    VerifyingDownload,
    /// Removing a download whose hash did not match.
    Discarding,
    /// Removing the installed copy.
    ClearingTarget,
    /// Moving a locked installed copy aside.
    MovingAside,
    /// Moving the download into place.
    MovingIntoPlace,
}

/// Where the flow stands.
#[derive(Debug, Clone, Copy, PartialEq, Eq, Structural)]
pub enum LaunchStage {
    FetchingRelease,
    PreparingInstallDir,
    FetchingChecksums,
    Asset { index: usize, step: AssetStep },
    LocatingGame,
    PreparingCloudDir,
    StartingServer,
    StartingInjector,
    Finished,
}

/// A release's file, as the flow keeps it: its name and download address.
#[derive(Debug)]
pub struct AssetLink {
    pub name: String,
    pub url: String,
}

/// What the caller reports about the last action.
#[derive(Debug)]
pub enum LaunchEvent {
    /// The release was fetched.
    ReleaseFetched(GithubRelease),
    /// The install directory exists (leftover backups removed); its path.
    InstallDirReady(String),
    /// The checksum list's text, `None` when it could not be fetched.
    ChecksumsFetched(Option<String>),
    /// The installed copy's hash, `None` when it is absent or unreadable.
    ExistingHashed(Option<String>),
    /// The download was written to the temporary file.
    Downloaded,
    /// The download's hash.
    DownloadHashed(String),
    /// The installed copy was removed, or there was none.
    TargetCleared,
    /// The installed copy could not be removed; the time, in seconds since 1970.
    TargetLocked { now_secs: u64 },
    /// The game's folder, if found.
    GameLocated(Option<String>),
    /// The cloud directory exists; its path.
    CloudDirReady(String),
    /// The action was carried out.
    Completed,
    /// The action failed.
    Failed(LauncherError),
}

/// What the caller is to do next.
#[derive(Debug, PartialEq, Eq)]
pub enum LaunchAction {
    /// Fetch the release description at this address.
    FetchRelease { url: String },
    /// Create the install directory of this tag, stop the background
    /// processes, remove leftover backups; report its path.
    PrepareInstallDir { tag: String },
    /// Fetch the checksum list at this address (failures are reported as no text).
    FetchChecksums { url: String },
    /// Hash `file` in `dir` if it exists.
    HashExisting { dir: String, file: String },
    /// Download `url` into `file` in `dir`.
    Download { url: String, dir: String, file: String },
    /// Hash `file` in `dir`.
    HashFile { dir: String, file: String },
    /// Remove `file` in `dir` (failures are ignored).
    RemoveFile { dir: String, file: String },
    /// Remove `file` in `dir` if it exists; report whether it was locked.
    ClearTarget { dir: String, file: String },
    /// Rename `file` to `backup` in `dir`.
    MoveAside { dir: String, file: String, backup: String },
    /// Rename `from` to `to` in `dir`.
    MoveIntoPlace { dir: String, from: String, to: String },
    /// Find the game folder of this name.
    LocateGame { folder: String },
    /// Create the cloud directory `dir`, given as path components (see
    /// `cloud_dir_for`); `None` stands for the launcher's own cloud
    /// directory. Report its path.
    PrepareCloudDir { dir: Option<Vec<String>> },
    /// Start `exe` in `dir` without a window, with `NL_CLOUD_PATH` set to
    /// `cloud_dir` and these arguments.
    SpawnServer { dir: String, exe: String, cloud_dir: String, args: Vec<String> },
    /// Start `exe` in `dir` without a window, with `INJECTOR_HEADLESS` set to
    /// `headless` and `INJECTOR_GAME_DIR` to the game folder when known.
    SpawnInjector { dir: String, exe: String, headless: String, game_dir: Option<String> },
    /// Return this outcome.
    Finish(Result<(), LauncherError>),
}

// ---------------------------------------------------------------------------
// Views.
// ---------------------------------------------------------------------------

/// A report, over strings as character sequences.
pub enum EventView {
    ReleaseFetched { tag: Seq<char>, assets: Seq<(Seq<char>, Seq<char>)> },
    InstallDirReady { dir: Seq<char> },
    ChecksumsFetched { text: Option<Seq<char>> },
    ExistingHashed { hash: Option<Seq<char>> },
    Downloaded,
    DownloadHashed { hash: Seq<char> },
    TargetCleared,
    TargetLocked { now_secs: u64 },
    GameLocated { dir: Option<Seq<char>> },
    CloudDirReady { dir: Seq<char> },
    Completed,
    Failed { error: ErrorView },
}

/// An action, over strings as character sequences.
pub enum ActionView {
    FetchRelease { url: Seq<char> },
    PrepareInstallDir { tag: Seq<char> },
    FetchChecksums { url: Seq<char> },
    HashExisting { dir: Seq<char>, file: Seq<char> },
    Download { url: Seq<char>, dir: Seq<char>, file: Seq<char> },
    HashFile { dir: Seq<char>, file: Seq<char> },
    RemoveFile { dir: Seq<char>, file: Seq<char> },
    ClearTarget { dir: Seq<char>, file: Seq<char> },
    MoveAside { dir: Seq<char>, file: Seq<char>, backup: Seq<char> },
    MoveIntoPlace { dir: Seq<char>, from: Seq<char>, to: Seq<char> },
    LocateGame { folder: Seq<char> },
    PrepareCloudDir { dir: Option<Seq<Seq<char>>> },
    SpawnServer { dir: Seq<char>, exe: Seq<char>, cloud_dir: Seq<char>, args: Seq<Seq<char>> },
    SpawnInjector {
        dir: Seq<char>,
        exe: Seq<char>,
        headless: Seq<char>,
        game_dir: Option<Seq<char>>,
    },
    Finish { outcome: Result<(), ErrorView> },
}

/// The flow, over strings as character sequences.
#[verifier::ext_equal]
pub struct FlowView {
    pub tag: Seq<char>,
    pub config_id: Option<i32>,
    pub appid: i32,
    pub auto_launch: bool,
    pub stage: LaunchStage,
    pub release_tag: Seq<char>,
    pub assets: Seq<(Seq<char>, Seq<char>)>,
    pub install_dir: Seq<char>,
    pub checksums: Seq<(Seq<char>, Seq<char>)>,
    pub download_hash: Seq<char>,
    pub game_dir: Option<Seq<char>>,
    pub cloud_dir: Seq<char>,
    pub outcome: Option<Result<(), ErrorView>>,
}

pub open spec fn opt_view(o: Option<String>) -> Option<Seq<char>> {
    match o {
        Some(s) => Some(s@),
        None => None,
    }
}

pub open spec fn outcome_view(o: Result<(), LauncherError>) -> Result<(), ErrorView> {
    match o {
        Ok(()) => Ok(()),
        Err(e) => Err(e@),
    }
}

pub open spec fn links_view(v: Seq<AssetLink>) -> Seq<(Seq<char>, Seq<char>)> {
    v.map_values(|a: AssetLink| (a.name@, a.url@))
}

pub open spec fn release_assets_view(r: GithubRelease) -> Seq<(Seq<char>, Seq<char>)> {
    r.assets@.map_values(|a: crate::release::GithubAsset| (a.name@, a.browser_download_url@))
}

impl View for LaunchEvent {
    type V = EventView;

    open spec fn view(&self) -> EventView {
        match self {
            LaunchEvent::ReleaseFetched(r) => EventView::ReleaseFetched {
                tag: r.tag_name@,
                assets: release_assets_view(*r),
            },
            LaunchEvent::InstallDirReady(d) => EventView::InstallDirReady { dir: d@ },
            LaunchEvent::ChecksumsFetched(t) => EventView::ChecksumsFetched { text: opt_view(*t) },
            LaunchEvent::ExistingHashed(h) => EventView::ExistingHashed { hash: opt_view(*h) },
            LaunchEvent::Downloaded => EventView::Downloaded,
            LaunchEvent::DownloadHashed(h) => EventView::DownloadHashed { hash: h@ },
            LaunchEvent::TargetCleared => EventView::TargetCleared,
            LaunchEvent::TargetLocked { now_secs } => EventView::TargetLocked {
                now_secs: *now_secs,
            },
            LaunchEvent::GameLocated(d) => EventView::GameLocated { dir: opt_view(*d) },
            LaunchEvent::CloudDirReady(d) => EventView::CloudDirReady { dir: d@ },
            LaunchEvent::Completed => EventView::Completed,
            LaunchEvent::Failed(e) => EventView::Failed { error: e@ },
        }
    }
}

impl View for LaunchAction {
    type V = ActionView;

    open spec fn view(&self) -> ActionView {
        match self {
            LaunchAction::FetchRelease { url } => ActionView::FetchRelease { url: url@ },
            LaunchAction::PrepareInstallDir { tag } => ActionView::PrepareInstallDir { tag: tag@ },
            LaunchAction::FetchChecksums { url } => ActionView::FetchChecksums { url: url@ },
            LaunchAction::HashExisting { dir, file } => ActionView::HashExisting {
                dir: dir@,
                file: file@,
            },
            LaunchAction::Download { url, dir, file } => ActionView::Download {
                url: url@,
                dir: dir@,
                file: file@,
            },
            LaunchAction::HashFile { dir, file } => ActionView::HashFile { dir: dir@, file: file@ },
            LaunchAction::RemoveFile { dir, file } => ActionView::RemoveFile {
                dir: dir@,
                file: file@,
            },
            LaunchAction::ClearTarget { dir, file } => ActionView::ClearTarget {
                dir: dir@,
                file: file@,
            },
            LaunchAction::MoveAside { dir, file, backup } => ActionView::MoveAside {
                dir: dir@,
                file: file@,
                backup: backup@,
            },
            LaunchAction::MoveIntoPlace { dir, from, to } => ActionView::MoveIntoPlace {
                dir: dir@,
                from: from@,
                to: to@,
            },
            LaunchAction::LocateGame { folder } => ActionView::LocateGame { folder: folder@ },
            LaunchAction::PrepareCloudDir { dir } => ActionView::PrepareCloudDir {
                dir: opt_components_view(*dir),
            },
            LaunchAction::SpawnServer { dir, exe, cloud_dir, args } => ActionView::SpawnServer {
                dir: dir@,
                exe: exe@,
                cloud_dir: cloud_dir@,
                args: args@.map_values(|s: String| s@),
            },
            LaunchAction::SpawnInjector { dir, exe, headless, game_dir } =>
                ActionView::SpawnInjector {
                dir: dir@,
                exe: exe@,
                headless: headless@,
                game_dir: opt_view(*game_dir),
            },
            LaunchAction::Finish(o) => ActionView::Finish { outcome: outcome_view(*o) },
        }
    }
}

// ---------------------------------------------------------------------------
// The transition relation.
// ---------------------------------------------------------------------------

/// The flow with a new stage.
pub open spec fn at(f: FlowView, stage: LaunchStage) -> FlowView {
    FlowView { stage, ..f }
}

/// The asset stage `step` of file `i`.
pub open spec fn asset_at(i: int, step: AssetStep) -> LaunchStage {
    LaunchStage::Asset { index: i as usize, step }
}

/// Ending the flow with an outcome.
pub open spec fn finish(f: FlowView, outcome: Result<(), ErrorView>) -> (FlowView, ActionView) {
    (
        FlowView { stage: LaunchStage::Finished, outcome: Some(outcome), ..f },
        ActionView::Finish { outcome },
    )
}

/// Starting the download of file `i`: fails when the release lacks it.
pub open spec fn start_download(f: FlowView, i: int) -> (FlowView, ActionView) {
    match find_asset(f.assets, asset_file(i)) {
        None => finish(f, Err(ErrorView::Validation(missing_asset_message(f.release_tag, asset_file(i))))),
        Some(url) => (
            at(f, asset_at(i, AssetStep::Downloading)),
            ActionView::Download { url, dir: f.install_dir, file: temp_file(i) },
        ),
    }
}

/// Starting file `i`: past the last file, the game is looked for; a file
/// with an expected hash is first checked in place; any other is downloaded.
pub open spec fn begin_asset(f: FlowView, i: int) -> (FlowView, ActionView) {
    if i >= asset_count() {
        (at(f, LaunchStage::LocatingGame), ActionView::LocateGame { folder: game_folder(f.appid) })
    } else if lookup(f.checksums, asset_file(i)) is Some {
        (
            at(f, asset_at(i, AssetStep::CheckingExisting)),
            ActionView::HashExisting { dir: f.install_dir, file: asset_file(i) },
        )
    } else {
        start_download(f, i)
    }
}

/// Removing the installed copy of file `i`.
pub open spec fn clear_target(f: FlowView, i: int) -> (FlowView, ActionView) {
    (
        at(f, asset_at(i, AssetStep::ClearingTarget)),
        ActionView::ClearTarget { dir: f.install_dir, file: asset_file(i) },
    )
}

/// Moving the download of file `i` into place.
pub open spec fn move_into_place(f: FlowView, i: int) -> (FlowView, ActionView) {
    (
        at(f, asset_at(i, AssetStep::MovingIntoPlace)),
        ActionView::MoveIntoPlace { dir: f.install_dir, from: temp_file(i), to: asset_file(i) },
    )
}

/// The flow's start: a refused tag ends it at once; any other fetches the release.
pub open spec fn launch_start(tag: Seq<char>, config_id: Option<i32>, appid: i32, auto_launch: bool) -> (FlowView, ActionView) {
    let f = FlowView {
        tag,
        config_id,
        appid,
        auto_launch,
        stage: LaunchStage::FetchingRelease,
        release_tag: Seq::empty(),
        assets: Seq::empty(),
        install_dir: Seq::empty(),
        checksums: Seq::empty(),
        download_hash: Seq::empty(),
        game_dir: None,
        cloud_dir: Seq::empty(),
        outcome: None,
    };
    if tag_refused(tag) {
        finish(f, Err(ErrorView::Validation(no_version_message())))
    } else {
        (f, ActionView::FetchRelease { url: release_url(tag) })
    }
}

/// One step of the flow. A failure ends the flow with its error (a failure
/// to remove a rejected download is ignored: that download's own error ends
/// it); a finished flow repeats its outcome; a report that does not answer
/// the action asked for ends the flow with an error.
pub open spec fn launch_next(f: FlowView, e: EventView) -> (FlowView, ActionView) {
    match f.stage {
        LaunchStage::Finished => (f, ActionView::Finish { outcome: recorded_outcome(f) }),
        LaunchStage::Asset { index, step: AssetStep::Discarding } => finish(f, recorded_outcome(f)),
        _ => match e {
            EventView::Failed { error } => finish(f, Err(error)),
            _ => launch_next_ok(f, e),
        },
    }
}

/// The outcome the flow recorded (an out-of-order error if it recorded none).
pub open spec fn recorded_outcome(f: FlowView) -> Result<(), ErrorView> {
    match f.outcome {
        Some(o) => o,
        None => Err(ErrorView::System(out_of_order_message())),
    }
}

/// One step of the flow on a report that is not a failure.
pub open spec fn launch_next_ok(f: FlowView, e: EventView) -> (FlowView, ActionView) {
    let bad = finish(f, Err(ErrorView::System(out_of_order_message())));
    match f.stage {
        LaunchStage::FetchingRelease => match e {
            EventView::ReleaseFetched { tag, assets } => (
                FlowView {
                    stage: LaunchStage::PreparingInstallDir,
                    release_tag: tag,
                    assets,
                    ..f
                },
                ActionView::PrepareInstallDir { tag: f.tag },
            ),
            _ => bad,
        },
        LaunchStage::PreparingInstallDir => match e {
            EventView::InstallDirReady { dir } => {
                let g = FlowView { install_dir: dir, ..f };
                match find_asset(g.assets, sums_asset()) {
                    Some(url) => (
                        at(g, LaunchStage::FetchingChecksums),
                        ActionView::FetchChecksums { url },
                    ),
                    None => begin_asset(FlowView { checksums: Seq::empty(), ..g }, 0),
                }
            },
            _ => bad,
        },
        LaunchStage::FetchingChecksums => match e {
            EventView::ChecksumsFetched { text } => begin_asset(
                FlowView {
                    checksums: match text {
                        Some(t) => entries_of_lines(lines(t)),
                        None => Seq::empty(),
                    },
                    ..f
                },
                0,
            ),
            _ => bad,
        },
        LaunchStage::Asset { index, step } => {
            let i = index as int;
            match (step, e) {
                (AssetStep::CheckingExisting, EventView::ExistingHashed { hash }) => match (
                    hash,
                    lookup(f.checksums, asset_file(i)),
                ) {
                    (Some(h), Some(expected)) => if eq_ignore_case(h, expected) {
                        begin_asset(f, i + 1)
                    } else {
                        start_download(f, i)
                    },
                    _ => start_download(f, i),
                },
                (AssetStep::Downloading, EventView::Downloaded) => match lookup(
                    f.checksums,
                    asset_file(i),
                ) {
                    Some(_) => (
                        at(f, asset_at(i, AssetStep::VerifyingDownload)),
                        ActionView::HashFile { dir: f.install_dir, file: temp_file(i) },
                    ),
                    None => clear_target(f, i),
                },
                (AssetStep::VerifyingDownload, EventView::DownloadHashed { hash }) => {
                    let g = FlowView { download_hash: hash, ..f };
                    match lookup(f.checksums, asset_file(i)) {
                        Some(expected) => if eq_ignore_case(hash, expected) {
                            clear_target(g, i)
                        } else {
                            (
                                FlowView {
                                    stage: asset_at(i, AssetStep::Discarding),
                                    outcome: Some(
                                        Err(
                                            ErrorView::Validation(
                                                checksum_message(asset_file(i), expected, hash),
                                            ),
                                        ),
                                    ),
                                    ..g
                                },
                                ActionView::RemoveFile { dir: f.install_dir, file: temp_file(i) },
                            )
                        },
                        None => clear_target(g, i),
                    }
                },
                (AssetStep::ClearingTarget, EventView::TargetCleared) => move_into_place(f, i),
                (AssetStep::ClearingTarget, EventView::TargetLocked { now_secs }) => (
                    at(f, asset_at(i, AssetStep::MovingAside)),
                    ActionView::MoveAside {
                        dir: f.install_dir,
                        file: asset_file(i),
                        backup: backup_file(asset_file(i), now_secs),
                    },
                ),
                (AssetStep::MovingAside, EventView::Completed) => move_into_place(f, i),
                (AssetStep::MovingIntoPlace, EventView::Completed) => begin_asset(f, i + 1),
                _ => bad,
            }
        },
        LaunchStage::LocatingGame => match e {
            EventView::GameLocated { dir } => (
                FlowView { stage: LaunchStage::PreparingCloudDir, game_dir: dir, ..f },
                ActionView::PrepareCloudDir { dir: cloud_dir(dir) },
            ),
            _ => bad,
        },
        LaunchStage::PreparingCloudDir => match e {
            EventView::CloudDirReady { dir } => (
                FlowView { stage: LaunchStage::StartingServer, cloud_dir: dir, ..f },
                ActionView::SpawnServer {
                    dir: f.install_dir,
                    exe: server_exe(),
                    cloud_dir: dir,
                    args: server_args(f.config_id),
                },
            ),
            _ => bad,
        },
        LaunchStage::StartingServer => match e {
            EventView::Completed => (
                at(f, LaunchStage::StartingInjector),
                ActionView::SpawnInjector {
                    dir: f.install_dir,
                    exe: injector_exe(),
                    headless: int_decimal(headless_choice(f.appid, f.auto_launch)),
                    game_dir: f.game_dir,
                },
            ),
            _ => bad,
        },
        LaunchStage::StartingInjector => match e {
            EventView::Completed => finish(f, Ok(())),
            _ => bad,
        },
        LaunchStage::Finished => bad,
    }
}

// ---------------------------------------------------------------------------
// The executable flow.
// ---------------------------------------------------------------------------

/// The state of one download-and-launch.
#[derive(Debug)]
pub struct LaunchFlow {
    tag: String,
    config_id: Option<i32>,
    appid: i32,
    auto_launch: bool,
    stage: LaunchStage,
    release_tag: String,
    assets: Vec<AssetLink>,
    install_dir: String,
    checksums: ChecksumTable,
    download_hash: String,
    game_dir: Option<String>,
    cloud_dir: String,
    outcome: Option<Result<(), LauncherError>>,
}

impl View for LaunchFlow {
    type V = FlowView;

    closed spec fn view(&self) -> FlowView {
        FlowView {
            tag: self.tag@,
            config_id: self.config_id,
            appid: self.appid,
            auto_launch: self.auto_launch,
            stage: self.stage,
            release_tag: self.release_tag@,
            assets: links_view(self.assets@),
            install_dir: self.install_dir@,
            checksums: self.checksums@,
            download_hash: self.download_hash@,
            game_dir: opt_view(self.game_dir),
            cloud_dir: self.cloud_dir@,
            outcome: match self.outcome {
                Some(o) => Some(outcome_view(o)),
                None => None,
            },
        }
    }
}

fn literal(s: &str) -> (r: String)
    ensures
        r@ == s@,
{
    owned(s)
}

fn copy_string(s: &String) -> (r: String)
    ensures
        r@ == s@,
{
    owned(s.as_str())
}

fn copy_opt(o: &Option<String>) -> (r: Option<String>)
    ensures
        opt_view(r) == opt_view(*o),
{
    match o {
        Some(s) => Some(copy_string(s)),
        None => None,
    }
}

fn copy_outcome(o: &Result<(), LauncherError>) -> (r: Result<(), LauncherError>)
    ensures
        outcome_view(r) == outcome_view(*o),
{
    match o {
        Ok(()) => Ok(()),
        Err(e) => Err(e.duplicate()),
    }
}

/// The name of file `i`.
fn asset_file_name(i: usize) -> (r: String)
    ensures
        r@ == asset_file(i as int),
{
    if i == 0 {
        literal("neverlose.dll")
    } else if i == 1 {
        literal("neverlose-server.exe")
    } else {
        literal("injector.exe")
    }
}

/// The temporary download name of file `i`.
fn temp_file_name(i: usize) -> (r: String)
    ensures
        r@ == temp_file(i as int),
{
    let mut r = asset_file_name(i);
    r.append(".download");
    r
}

/// The name a locked file is moved aside to.
pub fn backup_file_name(name: &str, now_secs: u64) -> (r: String)
    ensures
        r@ == backup_file(name@, now_secs),
{
    let mut r = owned(name);
    r.append(".");
    push_decimal(&mut r, now_secs);
    r.append(".old");
    r
}

/// The game folder looked for.
pub fn game_folder_name(appid: i32) -> (r: String)
    ensures
        r@ == game_folder(appid),
{
    if appid == 730 {
        literal("Counter-Strike Global Offensive")
    } else {
        literal("csgo legacy")
    }
}

/// The injector's mode.
pub fn injector_headless_choice(appid: i32, auto_launch: bool) -> (r: i32)
    ensures
        r == headless_choice(appid, auto_launch),
        !auto_launch ==> r == 3,
        auto_launch && appid == 730 ==> r == 2,
        auto_launch && appid != 730 ==> r == 1,
{
    if auto_launch {
        if appid == 730 {
            2
        } else {
            1
        }
    } else {
        3
    }
}

/// The server's arguments.
pub fn server_arguments(config_id: Option<i32>) -> (r: Vec<String>)
    ensures
        r@.map_values(|s: String| s@) == server_args(config_id),
{
    let mut r: Vec<String> = Vec::new();
    match config_id {
        Some(id) => {
            r.push(literal("--boot-config"));
            let mut n = String::new();
            push_i32(&mut n, id);
            r.push(n);
            assert(r@.map_values(|s: String| s@) =~= server_args(config_id));
        },
        None => {
            assert(r@.map_values(|s: String| s@) =~= server_args(config_id));
        },
    }
    r
}

/// The address of the release with this tag.
pub fn release_url_for(tag: &str) -> (r: String)
    ensures
        r@ == release_url(tag@),
{
    let mut r = literal("https://api.github.com/repos/luvettee/FemboyLose/releases/tags/");
    r.append(tag);
    r
}

/// The address of the release listing.
pub fn releases_url_string() -> (r: String)
    ensures
        r@ == releases_url(),
{
    literal("https://api.github.com/repos/luvettee/FemboyLose/releases")
}

/// The download address of the first asset named `name` (any ASCII case).
fn find_asset_url(assets: &Vec<AssetLink>, name: &str) -> (r: Option<String>)
    ensures
        opt_view(r) == find_asset(links_view(assets@), name@),
{
    let nc = chars_of(name);
    let mut i: usize = 0;
    assert(links_view(assets@).skip(0) =~= links_view(assets@));
    while i < assets.len()
        invariant
            i <= assets@.len(),
            nc@ == name@,
            find_asset(links_view(assets@), name@) == find_asset(
                links_view(assets@).skip(i as int),
                name@,
            ),
        decreases assets@.len() - i,
    {
        let ghost rest = links_view(assets@).skip(i as int);
        assert(rest[0] == (assets@[i as int].name@, assets@[i as int].url@));
        assert(rest.drop_first() =~= links_view(assets@).skip(i + 1));
        let ac = chars_of(assets[i].name.as_str());
        if chars_eq_ignore_ascii_case(ac.as_slice(), nc.as_slice()) {
            return Some(copy_string(&assets[i].url));
        }
        i = i + 1;
    }
    None
}

/// Whether a tag selects no release.
pub fn is_refused_tag(tag: &str) -> (r: bool)
    ensures
        r == tag_refused(tag@),
{
    let cs = chars_of(tag);
    let mut blank = true;
    let mut i: usize = 0;
    while i < cs.len()
        invariant
            i <= cs@.len(),
            cs@ == tag@,
            blank == (forall|j: int| 0 <= j < i ==> is_ws(#[trigger] tag@[j])),
        decreases cs@.len() - i,
    {
        if !is_whitespace(cs[i]) {
            blank = false;
        }
        i = i + 1;
    }
    blank || str_eq(tag, "Unavailable")
}

fn links_of(r: &GithubRelease) -> (v: Vec<AssetLink>)
    ensures
        links_view(v@) == release_assets_view(*r),
{
    let mut v: Vec<AssetLink> = Vec::new();
    let mut i: usize = 0;
    while i < r.assets.len()
        invariant
            i <= r.assets@.len(),
            links_view(v@) == release_assets_view(*r).take(i as int),
        decreases r.assets@.len() - i,
    {
        let a = &r.assets[i];
        let ghost before = v@;
        v.push(AssetLink { name: copy_string(&a.name), url: copy_string(&a.browser_download_url) });
        assert(links_view(v@) =~= links_view(before).push((a.name@, a.browser_download_url@)));
        assert(release_assets_view(*r).take(i + 1) =~= release_assets_view(*r).take(i as int).push(
            (a.name@, a.browser_download_url@),
        ));
        i = i + 1;
    }
    assert(release_assets_view(*r).take(r.assets@.len() as int) =~= release_assets_view(*r));
    v
}

/// Starts downloading and launching the version `tag`: refuses a tag that
/// selects no release, else asks for the release's description.
pub fn download_and_launch_version(
    tag: String,
    config_id: Option<i32>,
    appid: i32,
    auto_launch: bool,
) -> (r: (LaunchFlow, LaunchAction))
    ensures
        (r.0@, r.1@) == launch_start(tag@, config_id, appid, auto_launch),
        stage_ok(r.0@.stage),
        flow_inv(r.0@),
{
    proof {
        lemma_launch_start_inv(tag@, config_id, appid, auto_launch);
    }
    let refused = is_refused_tag(tag.as_str());
    let url = release_url_for(tag.as_str());
    let mut flow = LaunchFlow {
        tag,
        config_id,
        appid,
        auto_launch,
        stage: LaunchStage::FetchingRelease,
        release_tag: String::new(),
        assets: Vec::new(),
        install_dir: String::new(),
        checksums: ChecksumTable::empty(),
        download_hash: String::new(),
        game_dir: None,
        cloud_dir: String::new(),
        outcome: None,
    };
    assert(links_view(flow.assets@) =~= Seq::<(Seq<char>, Seq<char>)>::empty());
    if refused {
        let a = flow.finish_with(Err(LauncherError::Validation(literal("no release version is selected"))));
        (flow, a)
    } else {
        (flow, LaunchAction::FetchRelease { url })
    }
}

impl LaunchFlow {
    /// Where the flow stands.
    pub fn stage(&self) -> (s: LaunchStage)
        ensures
            s == self@.stage,
    {
        self.stage
    }

    fn finish_with(&mut self, outcome: Result<(), LauncherError>) -> (a: LaunchAction)
        ensures
            (final(self)@, a@) == finish(old(self)@, outcome_view(outcome)),
    {
        let kept = copy_outcome(&outcome);
        self.stage = LaunchStage::Finished;
        self.outcome = Some(kept);
        assert(final(self)@ =~= finish(old(self)@, outcome_view(outcome)).0);
        LaunchAction::Finish(outcome)
    }

    fn start_download(&mut self, i: usize) -> (a: LaunchAction)
        ensures
            (final(self)@, a@) == start_download(old(self)@, i as int),
    {
        let name = asset_file_name(i);
        match find_asset_url(&self.assets, name.as_str()) {
            None => {
                let mut msg = literal("release ");
                msg.append(self.release_tag.as_str());
                msg.append(" is missing ");
                msg.append(name.as_str());
                self.finish_with(Err(LauncherError::Validation(msg)))
            },
            Some(url) => {
                self.stage = LaunchStage::Asset { index: i, step: AssetStep::Downloading };
                assert(final(self)@ =~= at(old(self)@, asset_at(i as int, AssetStep::Downloading)));
                LaunchAction::Download { url, dir: copy_string(&self.install_dir), file: temp_file_name(i) }
            },
        }
    }

    fn begin_asset(&mut self, i: usize) -> (a: LaunchAction)
        ensures
            (final(self)@, a@) == begin_asset(old(self)@, i as int),
    {
        if i >= 3 {
            self.stage = LaunchStage::LocatingGame;
            assert(final(self)@ =~= at(old(self)@, LaunchStage::LocatingGame));
            return LaunchAction::LocateGame { folder: game_folder_name(self.appid) };
        }
        let name = asset_file_name(i);
        if self.checksums.get(name.as_str()).is_some() {
            self.stage = LaunchStage::Asset { index: i, step: AssetStep::CheckingExisting };
            assert(final(self)@ =~= at(old(self)@, asset_at(i as int, AssetStep::CheckingExisting)));
            LaunchAction::HashExisting { dir: copy_string(&self.install_dir), file: name }
        } else {
            self.start_download(i)
        }
    }

    fn clear_target(&mut self, i: usize) -> (a: LaunchAction)
        ensures
            (final(self)@, a@) == clear_target(old(self)@, i as int),
    {
        self.stage = LaunchStage::Asset { index: i, step: AssetStep::ClearingTarget };
        assert(final(self)@ =~= at(old(self)@, asset_at(i as int, AssetStep::ClearingTarget)));
        LaunchAction::ClearTarget { dir: copy_string(&self.install_dir), file: asset_file_name(i) }
    }

    fn move_into_place(&mut self, i: usize) -> (a: LaunchAction)
        ensures
            (final(self)@, a@) == move_into_place(old(self)@, i as int),
    {
        self.stage = LaunchStage::Asset { index: i, step: AssetStep::MovingIntoPlace };
        assert(final(self)@ =~= at(old(self)@, asset_at(i as int, AssetStep::MovingIntoPlace)));
        LaunchAction::MoveIntoPlace {
            dir: copy_string(&self.install_dir),
            from: temp_file_name(i),
            to: asset_file_name(i),
        }
    }

    /// The recorded outcome, or an out-of-order error when none was recorded.
    fn recorded(&self) -> (o: Result<(), LauncherError>)
        ensures
            outcome_view(o) == recorded_outcome(self@),
    {
        match &self.outcome {
            Some(o) => copy_outcome(o),
            None => Err(LauncherError::System(literal("launch step reported out of order"))),
        }
    }

    /// Starting the file after file `i`.
    fn next_asset(&mut self, i: usize) -> (a: LaunchAction)
        ensures
            (final(self)@, a@) == begin_asset(old(self)@, i as int + 1),
    {
        if i >= 2 {
            self.stage = LaunchStage::LocatingGame;
            assert(final(self)@ =~= at(old(self)@, LaunchStage::LocatingGame));
            LaunchAction::LocateGame { folder: game_folder_name(self.appid) }
        } else {
            self.begin_asset(i + 1)
        }
    }

    /// One step: from what the last action reported, the next action.
    pub fn step(&mut self, event: LaunchEvent) -> (a: LaunchAction)
        ensures
            (final(self)@, a@) == launch_next(old(self)@, event@),
            stage_ok(old(self)@.stage) ==> stage_ok(final(self)@.stage),
            flow_inv(old(self)@) ==> flow_inv(final(self)@),
    {
        proof {
            if stage_ok(self@.stage) {
                lemma_launch_terminates(self@, event@);
            }
            if flow_inv(self@) {
                lemma_launch_step_order(self@, event@);
            }
        }
        match self.stage {
            LaunchStage::Finished => LaunchAction::Finish(self.recorded()),
            LaunchStage::Asset { index: _, step: AssetStep::Discarding } => {
                let o = self.recorded();
                self.finish_with(o)
            },
            _ => match event {
                LaunchEvent::Failed(e) => self.finish_with(Err(e)),
                other => self.step_ok(other),
            },
        }
    }

    fn out_of_order(&mut self) -> (a: LaunchAction)
        ensures
            (final(self)@, a@) == finish(
                old(self)@,
                Err(ErrorView::System(out_of_order_message())),
            ),
    {
        self.finish_with(Err(LauncherError::System(literal("launch step reported out of order"))))
    }

    fn step_ok(&mut self, event: LaunchEvent) -> (a: LaunchAction)
        requires
            !(event is Failed),
            old(self)@.stage != LaunchStage::Finished,
        ensures
            (final(self)@, a@) == launch_next_ok(old(self)@, event@),
    {
        match self.stage {
            LaunchStage::FetchingRelease => match event {
                LaunchEvent::ReleaseFetched(r) => {
                    let links = links_of(&r);
                    self.release_tag = r.tag_name;
                    self.assets = links;
                    self.stage = LaunchStage::PreparingInstallDir;
                    assert(final(self)@ =~= launch_next_ok(old(self)@, event@).0);
                    LaunchAction::PrepareInstallDir { tag: copy_string(&self.tag) }
                },
                _ => self.out_of_order(),
            },
            LaunchStage::PreparingInstallDir => match event {
                LaunchEvent::InstallDirReady(dir) => {
                    self.install_dir = dir;
                    let sums = literal("SHA256SUMS.txt");
                    match find_asset_url(&self.assets, sums.as_str()) {
                        Some(url) => {
                            self.stage = LaunchStage::FetchingChecksums;
                            assert(final(self)@ =~= launch_next_ok(old(self)@, event@).0);
                            LaunchAction::FetchChecksums { url }
                        },
                        None => {
                            self.checksums = ChecksumTable::empty();
                            self.begin_asset(0)
                        },
                    }
                },
                _ => self.out_of_order(),
            },
            LaunchStage::FetchingChecksums => match event {
                LaunchEvent::ChecksumsFetched(text) => {
                    self.checksums = match text {
                        Some(t) => ChecksumTable::parse(t.as_str()),
                        None => ChecksumTable::empty(),
                    };
                    self.begin_asset(0)
                },
                _ => self.out_of_order(),
            },
            LaunchStage::Asset { index, step } => self.step_asset(index, step, event),
            LaunchStage::LocatingGame => match event {
                LaunchEvent::GameLocated(dir) => {
                    let cloud = cloud_dir_for(&dir);
                    self.game_dir = dir;
                    self.stage = LaunchStage::PreparingCloudDir;
                    assert(final(self)@ =~= launch_next_ok(old(self)@, event@).0);
                    LaunchAction::PrepareCloudDir { dir: cloud }
                },
                _ => self.out_of_order(),
            },
            LaunchStage::PreparingCloudDir => match event {
                LaunchEvent::CloudDirReady(dir) => {
                    let shown = copy_string(&dir);
                    self.cloud_dir = dir;
                    self.stage = LaunchStage::StartingServer;
                    assert(final(self)@ =~= launch_next_ok(old(self)@, event@).0);
                    LaunchAction::SpawnServer {
                        dir: copy_string(&self.install_dir),
                        exe: literal("neverlose-server.exe"),
                        cloud_dir: shown,
                        args: server_arguments(self.config_id),
                    }
                },
                _ => self.out_of_order(),
            },
            LaunchStage::StartingServer => match event {
                LaunchEvent::Completed => {
                    self.stage = LaunchStage::StartingInjector;
                    assert(final(self)@ =~= launch_next_ok(old(self)@, event@).0);
                    let mut headless = String::new();
                    push_i32(&mut headless, injector_headless_choice(self.appid, self.auto_launch));
                    LaunchAction::SpawnInjector {
                        dir: copy_string(&self.install_dir),
                        exe: literal("injector.exe"),
                        headless,
                        game_dir: copy_opt(&self.game_dir),
                    }
                },
                _ => self.out_of_order(),
            },
            LaunchStage::StartingInjector => match event {
                LaunchEvent::Completed => self.finish_with(Ok(())),
                _ => self.out_of_order(),
            },
            LaunchStage::Finished => self.out_of_order(),
        }
    }

    fn step_asset(&mut self, index: usize, step: AssetStep, event: LaunchEvent) -> (a: LaunchAction)
        requires
            !(event is Failed),
            old(self)@.stage == (LaunchStage::Asset { index, step }),
        ensures
            (final(self)@, a@) == launch_next_ok(old(self)@, event@),
    {
        let name = asset_file_name(index);
        match (step, event) {
            (AssetStep::CheckingExisting, LaunchEvent::ExistingHashed(hash)) => {
                let matched = match (&hash, self.checksums.get(name.as_str())) {
                    (Some(h), Some(expected)) => eq_ignore_ascii_case(h.as_str(), expected.as_str()),
                    _ => false,
                };
                if matched {
                    self.next_asset(index)
                } else {
                    self.start_download(index)
                }
            },
            (AssetStep::Downloading, LaunchEvent::Downloaded) => {
                if self.checksums.get(name.as_str()).is_some() {
                    self.stage = LaunchStage::Asset { index, step: AssetStep::VerifyingDownload };
                    assert(final(self)@ =~= launch_next_ok(old(self)@, event@).0);
                    LaunchAction::HashFile { dir: copy_string(&self.install_dir), file: temp_file_name(index) }
                } else {
                    self.clear_target(index)
                }
            },
            (AssetStep::VerifyingDownload, LaunchEvent::DownloadHashed(hash)) => {
                let verdict: Option<String> = match self.checksums.get(name.as_str()) {
                    Some(expected) => if eq_ignore_ascii_case(hash.as_str(), expected.as_str()) {
                        None
                    } else {
                        let mut msg = literal("checksum validation failed for downloaded ");
                        msg.append(name.as_str());
                        msg.append(" (expected ");
                        msg.append(expected.as_str());
                        msg.append(", got ");
                        msg.append(hash.as_str());
                        msg.append(")");
                        Some(msg)
                    },
                    None => None,
                };
                self.download_hash = hash;
                match verdict {
                    None => self.clear_target(index),
                    Some(msg) => {
                        self.stage = LaunchStage::Asset { index, step: AssetStep::Discarding };
                        self.outcome = Some(Err(LauncherError::Validation(msg)));
                        assert(final(self)@ =~= launch_next_ok(old(self)@, event@).0);
                        LaunchAction::RemoveFile { dir: copy_string(&self.install_dir), file: temp_file_name(index) }
                    },
                }
            },
            (AssetStep::ClearingTarget, LaunchEvent::TargetCleared) => self.move_into_place(index),
            (AssetStep::ClearingTarget, LaunchEvent::TargetLocked { now_secs }) => {
                self.stage = LaunchStage::Asset { index, step: AssetStep::MovingAside };
                assert(final(self)@ =~= launch_next_ok(old(self)@, event@).0);
                LaunchAction::MoveAside {
                    dir: copy_string(&self.install_dir),
                    file: asset_file_name(index),
                    backup: backup_file_name(name.as_str(), now_secs),
                }
            },
            (AssetStep::MovingAside, LaunchEvent::Completed) => self.move_into_place(index),
            (AssetStep::MovingIntoPlace, LaunchEvent::Completed) => self.next_asset(index),
            _ => self.out_of_order(),
        }
    }
}

// ---------------------------------------------------------------------------
// Laws of the flow.
// ---------------------------------------------------------------------------

/// The asset stages name one of the three files.
pub open spec fn stage_ok(s: LaunchStage) -> bool {
    match s {
        LaunchStage::Asset { index, step } => index < 3,
        _ => true,
    }
}

/// How many of the files are known to be in place at a stage.
pub open spec fn files_done(s: LaunchStage) -> int {
    match s {
        LaunchStage::FetchingRelease | LaunchStage::PreparingInstallDir
        | LaunchStage::FetchingChecksums => 0,
        LaunchStage::Asset { index, step } => index as int,
        LaunchStage::Finished => -1,
        _ => 3,
    }
}

/// The step completes file `i`: its download was moved into place, or the
/// installed copy's hash matched the expected one.
pub open spec fn completes_file(f: FlowView, e: EventView, i: int) -> bool {
    ||| f.stage == asset_at(i, AssetStep::MovingIntoPlace) && e == EventView::Completed
    ||| f.stage == asset_at(i, AssetStep::CheckingExisting) && match (e, lookup(f.checksums, asset_file(i))) {
        (EventView::ExistingHashed { hash: Some(h) }, Some(expected)) => eq_ignore_case(h, expected),
        _ => false,
    }
}

/// Steps left at most from a stage.
pub open spec fn launch_rank(s: LaunchStage) -> int {
    match s {
        LaunchStage::FetchingRelease => 40,
        LaunchStage::PreparingInstallDir => 39,
        LaunchStage::FetchingChecksums => 38,
        LaunchStage::Asset { index, step } => 37 - 8 * index - match step {
            AssetStep::CheckingExisting => 0int,
            AssetStep::Downloading => 1,
            AssetStep::VerifyingDownload => 2,
            AssetStep::ClearingTarget => 3,
            AssetStep::MovingAside => 4,
            AssetStep::MovingIntoPlace => 5,
            AssetStep::Discarding => 6,
        },
        LaunchStage::LocatingGame => 4,
        LaunchStage::PreparingCloudDir => 3,
        LaunchStage::StartingServer => 2,
        LaunchStage::StartingInjector => 1,
        LaunchStage::Finished => 0,
    }
}

/// A refused tag ends the flow at once with the validation error, before
/// any request is made.
pub proof fn lemma_refused_tag_fails_at_once(
    tag: Seq<char>,
    config_id: Option<i32>,
    appid: i32,
    auto_launch: bool,
)
    requires
        tag_refused(tag),
    ensures
        launch_start(tag, config_id, appid, auto_launch).0.stage == LaunchStage::Finished,
        launch_start(tag, config_id, appid, auto_launch).1 == (ActionView::Finish {
            outcome: Err(ErrorView::Validation(no_version_message())),
        }),
{
}

/// Any other tag starts by fetching that release by its tag.
pub proof fn lemma_accepted_tag_fetches_release(
    tag: Seq<char>,
    config_id: Option<i32>,
    appid: i32,
    auto_launch: bool,
)
    requires
        !tag_refused(tag),
    ensures
        launch_start(tag, config_id, appid, auto_launch).0.stage == LaunchStage::FetchingRelease,
        launch_start(tag, config_id, appid, auto_launch).1 == (ActionView::FetchRelease {
            url: release_url(tag),
        }),
{
}

/// The flow always ends: every step before the end lowers the rank, so at
/// most forty steps follow the start whatever is reported; the end is
/// final and repeats its outcome.
pub proof fn lemma_launch_terminates(f: FlowView, e: EventView)
    requires
        stage_ok(f.stage),
    ensures
        stage_ok(launch_next(f, e).0.stage),
        f.stage != LaunchStage::Finished ==> launch_rank(launch_next(f, e).0.stage) < launch_rank(
            f.stage,
        ),
        launch_rank(launch_next(f, e).0.stage) >= 0,
        f.stage == LaunchStage::Finished ==> launch_next(f, e).0 == f,
{
}

/// A failure report ends the flow with that error, unless the flow already
/// ended or is discarding a rejected download (whose error then ends it).
pub proof fn lemma_failure_ends_flow(f: FlowView, error: ErrorView)
    requires
        f.stage != LaunchStage::Finished,
        !(f.stage matches LaunchStage::Asset { step: AssetStep::Discarding, .. }),
    ensures
        launch_next(f, EventView::Failed { error }) == finish(f, Err(error)),
{
}

/// The game is started only once all three files are in place: the count
/// of files in place moves only one at a time, and only on a step that
/// completes that file (moved into place, or already installed with the
/// expected hash); the server and the injector are started only when the
/// count is three.
pub proof fn lemma_files_in_place_before_start(f: FlowView, e: EventView)
    requires
        stage_ok(f.stage),
    ensures
        ({
            let g = launch_next(f, e).0;
            g.stage != LaunchStage::Finished && files_done(g.stage) != files_done(f.stage)
                ==> files_done(g.stage) == files_done(f.stage) + 1 && completes_file(
                f,
                e,
                files_done(f.stage),
            )
        }),
        launch_next(f, e).1 is SpawnServer ==> files_done(launch_next(f, e).0.stage) == 3,
        launch_next(f, e).1 is SpawnInjector ==> files_done(launch_next(f, e).0.stage) == 3,
{
}

/// A download is installed only after its hash matched the expected one:
/// removing the installed copy of a file with an expected hash is reached
/// only from hashing that file's download with a matching result; moving a
/// download into place is reached only from removing or moving aside the
/// installed copy of the same file; and a mismatch removes the download and
/// ends the flow with the checksum error.
pub proof fn lemma_only_verified_downloads_installed(f: FlowView, e: EventView, i: int)
    requires
        stage_ok(f.stage),
        0 <= i < 3,
    ensures
        ({
            let (g, a) = launch_next(f, e);
            g.stage == asset_at(i, AssetStep::ClearingTarget) && f.stage != g.stage && lookup(
                f.checksums,
                asset_file(i),
            ) is Some ==> f.stage == asset_at(i, AssetStep::VerifyingDownload) && match e {
                EventView::DownloadHashed { hash } => eq_ignore_case(
                    hash,
                    lookup(f.checksums, asset_file(i))->0,
                ),
                _ => false,
            }
        }),
        launch_next(f, e).0.stage == asset_at(i, AssetStep::MovingIntoPlace) && f.stage
            != asset_at(i, AssetStep::MovingIntoPlace) ==> f.stage == asset_at(
            i,
            AssetStep::ClearingTarget,
        ) || f.stage == asset_at(i, AssetStep::MovingAside),
        launch_next(f, e).0.stage == asset_at(i, AssetStep::MovingAside) && f.stage != asset_at(
            i,
            AssetStep::MovingAside,
        ) ==> f.stage == asset_at(i, AssetStep::ClearingTarget),
        ({
            let (g, a) = launch_next(f, e);
            f.stage == asset_at(i, AssetStep::VerifyingDownload) && (e matches EventView::DownloadHashed {
                hash,
            } && lookup(f.checksums, asset_file(i)) matches Some(expected) && !eq_ignore_case(
                hash,
                expected,
            )) ==> a == (ActionView::RemoveFile { dir: f.install_dir, file: temp_file(i) })
                && launch_next(g, EventView::Completed).1 == (ActionView::Finish {
                outcome: Err(
                    ErrorView::Validation(
                        checksum_message(asset_file(i), lookup(f.checksums, asset_file(i))->0, e->DownloadHashed_hash),
                    ),
                ),
            })
        }),
{
}

// ---------------------------------------------------------------------------
// Laws over whole runs.
// ---------------------------------------------------------------------------

/// The invariant of a flow: stages name one of the three files; a flow
/// discarding a download holds the error it will end with; and once a
/// file's installed copy is being replaced, the download's hash matched the
/// expected one, when one is expected.
pub open spec fn flow_inv(f: FlowView) -> bool {
    &&& stage_ok(f.stage)
    &&& (f.stage matches LaunchStage::Asset { step: AssetStep::Discarding, .. } ==> f.outcome
        matches Some(Err(_)))
    &&& match f.stage {
        LaunchStage::Asset { index, step } => (step == AssetStep::ClearingTarget || step
            == AssetStep::MovingAside || step == AssetStep::MovingIntoPlace) ==> match lookup(
            f.checksums,
            asset_file(index as int),
        ) {
            Some(expected) => eq_ignore_case(f.download_hash, expected),
            None => true,
        },
        _ => true,
    }
}

/// The place of a stage in the launch sequence: fetch the release
/// (0), prepare the install directory (1), fetch the checksums (2), install
/// file `i` (3 + `i`), find the game (6), prepare the cloud directory (7),
/// start the server (8), start the injector (9); the end is 10.
pub open spec fn phase(s: LaunchStage) -> int {
    match s {
        LaunchStage::FetchingRelease => 0,
        LaunchStage::PreparingInstallDir => 1,
        LaunchStage::FetchingChecksums => 2,
        LaunchStage::Asset { index, step } => 3 + index,
        LaunchStage::LocatingGame => 6,
        LaunchStage::PreparingCloudDir => 7,
        LaunchStage::StartingServer => 8,
        LaunchStage::StartingInjector => 9,
        LaunchStage::Finished => 10,
    }
}

/// A step stays in its phase, moves to the next, skips only the optional
/// checksum fetch, or ends.
pub open spec fn phase_step_ok(p: int, q: int) -> bool {
    q == p || q == p + 1 || (p == 1 && q == 3) || q == 10
}

/// The steps that every successful run goes through (all but the optional
/// checksum fetch).
pub open spec fn required_phase(q: int) -> bool {
    0 <= q <= 9 && q != 2
}

/// The flows a run goes through: the first, then the flow after each report.
pub open spec fn trace(f: FlowView, es: Seq<EventView>) -> Seq<FlowView>
    decreases es.len(),
{
    if es.len() == 0 {
        seq![f]
    } else {
        seq![f] + trace(launch_next(f, es[0]).0, es.drop_first())
    }
}

/// The flow invariant holds at the start and is kept by every step; each
/// step stays in its phase, moves on by one, skips only the checksum fetch,
/// or ends; and success is returned only by the step that started the
/// injector.
pub proof fn lemma_launch_step_order(f: FlowView, e: EventView)
    requires
        flow_inv(f),
    ensures
        flow_inv(launch_next(f, e).0),
        phase_step_ok(phase(f.stage), phase(launch_next(f, e).0.stage)),
        0 <= phase(launch_next(f, e).0.stage) <= 10,
        f.stage != LaunchStage::Finished && launch_next(f, e).0.stage == LaunchStage::Finished
            && launch_next(f, e).0.outcome == Some(Ok::<(), ErrorView>(())) ==> f.stage
            == LaunchStage::StartingInjector && e == EventView::Completed,
{
}

/// Every start satisfies the flow invariant.
pub proof fn lemma_launch_start_inv(tag: Seq<char>, config_id: Option<i32>, appid: i32, auto_launch: bool)
    ensures
        flow_inv(launch_start(tag, config_id, appid, auto_launch).0),
{
}

/// A trace holds one flow more than there are reports, starts at the first
/// flow, and each next flow is the step from the one before.
pub proof fn lemma_trace_steps(f: FlowView, es: Seq<EventView>)
    ensures
        trace(f, es).len() == es.len() + 1,
        trace(f, es)[0] == f,
        forall|k: int|
            0 <= k < es.len() ==> #[trigger] trace(f, es)[k + 1] == launch_next(
                trace(f, es)[k],
                es[k],
            ).0,
    decreases es.len(),
{
    if es.len() > 0 {
        let g = launch_next(f, es[0]).0;
        lemma_trace_steps(g, es.drop_first());
        assert forall|k: int| 0 <= k < es.len() implies #[trigger] trace(f, es)[k + 1]
            == launch_next(trace(f, es)[k], es[k]).0 by {
            if k > 0 {
                assert(es.drop_first()[k - 1] == es[k]);
                assert(trace(f, es)[k] == trace(g, es.drop_first())[k - 1]);
            }
        }
    }
}

/// Along a run the invariant holds at every flow and the phases never go back.
proof fn lemma_trace_inv_monotone(f: FlowView, es: Seq<EventView>)
    requires
        flow_inv(f),
    ensures
        forall|k: int| 0 <= k < trace(f, es).len() ==> #[trigger] flow_inv(trace(f, es)[k]),
        forall|i: int, j: int|
            0 <= i <= j < trace(f, es).len() ==> phase(#[trigger] trace(f, es)[i].stage) <= phase(
                #[trigger] trace(f, es)[j].stage,
            ),
{
    let t = trace(f, es);
    lemma_trace_steps(f, es);
    assert forall|k: int| 0 <= k < t.len() implies #[trigger] flow_inv(t[k]) by {
        lemma_trace_inv_upto(f, es, k);
    }
    assert forall|i: int, j: int| 0 <= i <= j < t.len() implies phase(#[trigger] t[i].stage)
        <= phase(#[trigger] t[j].stage) by {
        lemma_trace_phase_upto(f, es, i, j);
    }
}

proof fn lemma_trace_inv_upto(f: FlowView, es: Seq<EventView>, k: int)
    requires
        flow_inv(f),
        0 <= k <= es.len(),
    ensures
        flow_inv(trace(f, es)[k]),
        0 <= phase(trace(f, es)[k].stage) <= 10,
    decreases k,
{
    lemma_trace_steps(f, es);
    if k > 0 {
        lemma_trace_inv_upto(f, es, k - 1);
        lemma_launch_step_order(trace(f, es)[k - 1], es[k - 1]);
        assert(trace(f, es)[(k - 1) + 1] == launch_next(trace(f, es)[k - 1], es[k - 1]).0);
    } else {
        assert(stage_ok(f.stage));
    }
}

proof fn lemma_trace_phase_upto(f: FlowView, es: Seq<EventView>, i: int, j: int)
    requires
        flow_inv(f),
        0 <= i <= j <= es.len(),
    ensures
        phase(trace(f, es)[i].stage) <= phase(trace(f, es)[j].stage),
    decreases j - i,
{
    lemma_trace_steps(f, es);
    if i < j {
        lemma_trace_phase_upto(f, es, i, j - 1);
        lemma_trace_inv_upto(f, es, j - 1);
        lemma_launch_step_order(trace(f, es)[j - 1], es[j - 1]);
        assert(trace(f, es)[(j - 1) + 1] == launch_next(trace(f, es)[j - 1], es[j - 1]).0);
    }
}

/// Once a run has ended it stays as it ended.
proof fn lemma_trace_finished_stays(f: FlowView, es: Seq<EventView>, i: int, j: int)
    requires
        0 <= i <= j <= es.len(),
        trace(f, es)[i].stage == LaunchStage::Finished,
    ensures
        trace(f, es)[j] == trace(f, es)[i],
    decreases j - i,
{
    lemma_trace_steps(f, es);
    if i < j {
        lemma_trace_finished_stays(f, es, i, j - 1);
        assert(trace(f, es)[(j - 1) + 1] == launch_next(trace(f, es)[j - 1], es[j - 1]).0);
    }
}

/// A run that ended in success passed the start of the injector.
proof fn lemma_trace_ok_passed_injector(f: FlowView, es: Seq<EventView>, n: int)
    requires
        flow_inv(f),
        f.stage != LaunchStage::Finished,
        0 <= n <= es.len(),
        trace(f, es)[n].stage == LaunchStage::Finished,
        trace(f, es)[n].outcome == Some(Ok::<(), ErrorView>(())),
    ensures
        exists|k: int| 0 <= k < n && #[trigger] trace(f, es)[k].stage == LaunchStage::StartingInjector,
    decreases n,
{
    lemma_trace_steps(f, es);
    let t = trace(f, es);
    if n > 0 {
        assert(t[(n - 1) + 1] == launch_next(t[n - 1], es[n - 1]).0);
        if t[n - 1].stage == LaunchStage::Finished {
            lemma_trace_ok_passed_injector(f, es, n - 1);
            let k = choose|k: int| 0 <= k < n - 1 && #[trigger] t[k].stage == LaunchStage::StartingInjector;
            assert(t[k].stage == LaunchStage::StartingInjector);
        } else {
            lemma_trace_inv_upto(f, es, n - 1);
            lemma_launch_step_order(t[n - 1], es[n - 1]);
            assert(t[n - 1].stage == LaunchStage::StartingInjector);
        }
    }
}

/// A run that reached phase `v` (before the end) went through every
/// required step up to `v`.
proof fn lemma_trace_covers(f: FlowView, es: Seq<EventView>, m: int, q: int)
    requires
        flow_inv(f),
        f.stage == LaunchStage::FetchingRelease,
        0 <= m <= es.len(),
        phase(trace(f, es)[m].stage) <= 9,
        required_phase(q),
        q <= phase(trace(f, es)[m].stage),
    ensures
        exists|k: int| 0 <= k <= m && phase(#[trigger] trace(f, es)[k].stage) == q,
    decreases m,
{
    lemma_trace_steps(f, es);
    let t = trace(f, es);
    if q == phase(t[m].stage) {
        assert(phase(t[m].stage) == q);
    } else {
        assert(m > 0);
        assert(t[(m - 1) + 1] == launch_next(t[m - 1], es[m - 1]).0);
        lemma_trace_inv_upto(f, es, m - 1);
        lemma_launch_step_order(t[m - 1], es[m - 1]);
        lemma_trace_covers(f, es, m - 1, q);
        let k = choose|k: int| 0 <= k <= m - 1 && phase(#[trigger] t[k].stage) == q;
        assert(phase(t[k].stage) == q);
    }
}

/// A whole run of the flow follows the launch sequence: for an accepted tag, the steps run in order (fetch the release, prepare the
/// install directory, fetch the checksums when listed, install the three
/// files in turn, find the game, prepare the cloud directory, start the
/// server, start the injector), never going back; a run that returns
/// success went through every one of them but the optional checksum fetch;
/// and the first failure reported ends the run with that failure's error,
/// every later report answered by the same end.
pub proof fn lemma_launch_run_order(
    tag: Seq<char>,
    config_id: Option<i32>,
    appid: i32,
    auto_launch: bool,
    es: Seq<EventView>,
)
    requires
        !tag_refused(tag),
    ensures
        ({
            let t = trace(launch_start(tag, config_id, appid, auto_launch).0, es);
            &&& t.len() == es.len() + 1
            &&& t[0].stage == LaunchStage::FetchingRelease
            &&& forall|k: int|
                0 <= k < es.len() ==> phase_step_ok(
                    phase(#[trigger] t[k].stage),
                    phase(t[k + 1].stage),
                )
            &&& forall|i: int, j: int|
                0 <= i <= j < t.len() ==> phase(#[trigger] t[i].stage) <= phase(
                    #[trigger] t[j].stage,
                )
            &&& (t[es.len() as int].stage == LaunchStage::Finished && t[es.len() as int].outcome
                == Some(Ok::<(), ErrorView>(())) ==> forall|q: int|
                required_phase(q) ==> exists|k: int|
                    0 <= k < t.len() && phase(#[trigger] t[k].stage) == q)
            &&& forall|k: int|
                0 <= k < es.len() && t[k].stage != LaunchStage::Finished && !(t[k].stage matches LaunchStage::Asset {
                    step: AssetStep::Discarding,
                    ..
                }) && (#[trigger] es[k]) is Failed ==> forall|j: int|
                    k < j < t.len() ==> (#[trigger] t[j]).stage == LaunchStage::Finished
                        && t[j].outcome == Some(Err::<(), ErrorView>(es[k]->error))
        }),
{
    let f = launch_start(tag, config_id, appid, auto_launch).0;
    lemma_launch_start_inv(tag, config_id, appid, auto_launch);
    lemma_trace_steps(f, es);
    lemma_trace_inv_monotone(f, es);
    let t = trace(f, es);
    let n = es.len() as int;
    assert forall|k: int| 0 <= k < es.len() implies phase_step_ok(
        phase(#[trigger] t[k].stage),
        phase(t[k + 1].stage),
    ) by {
        lemma_trace_inv_upto(f, es, k);
        lemma_launch_step_order(t[k], es[k]);
    }
    if t[n].stage == LaunchStage::Finished && t[n].outcome == Some(Ok::<(), ErrorView>(())) {
        lemma_trace_ok_passed_injector(f, es, n);
        let m = choose|k: int| 0 <= k < n && #[trigger] t[k].stage == LaunchStage::StartingInjector;
        assert forall|q: int| required_phase(q) implies exists|k: int|
            0 <= k < t.len() && phase(#[trigger] t[k].stage) == q by {
            lemma_trace_covers(f, es, m, q);
            let k = choose|k: int| 0 <= k <= m && phase(#[trigger] t[k].stage) == q;
            assert(0 <= k < t.len() && phase(t[k].stage) == q);
        }
    }
    assert forall|k: int|
        0 <= k < es.len() && t[k].stage != LaunchStage::Finished && !(t[k].stage matches LaunchStage::Asset {
            step: AssetStep::Discarding,
            ..
        }) && (#[trigger] es[k]) is Failed implies forall|j: int|
        k < j < t.len() ==> (#[trigger] t[j]).stage == LaunchStage::Finished && t[j].outcome
            == Some(Err::<(), ErrorView>(es[k]->error)) by {
        assert(t[k + 1] == launch_next(t[k], es[k]).0);
        assert forall|j: int| k < j < t.len() implies (#[trigger] t[j]).stage
            == LaunchStage::Finished && t[j].outcome == Some(Err::<(), ErrorView>(es[k]->error)) by {
            lemma_trace_finished_stays(f, es, k + 1, j);
        }
    }
}

/// A second run skips a file that a first run installed, when the release
/// lists its checksum and the installed copy is unchanged: the first run
/// moved the download, with `contents`, into place only after its digest
/// matched the expected one; the second run, starting that file, only asks
/// for the installed copy's digest and, given the digest of the same
/// `contents`, moves on to the next step without any download, removal or
/// move of the file.
pub proof fn lemma_second_run_skips_installed_file(
    f: FlowView,
    g: FlowView,
    i: int,
    contents: Seq<u8>,
)
    requires
        flow_inv(f),
        f.download_hash == hex_lower(sha256(contents)),
        0 <= i < 3,
        f.stage == asset_at(i, AssetStep::MovingIntoPlace),
        lookup(f.checksums, asset_file(i)) is Some,
        lookup(g.checksums, asset_file(i)) == lookup(f.checksums, asset_file(i)),
    ensures
        begin_asset(g, i) == (
            at(g, asset_at(i, AssetStep::CheckingExisting)),
            ActionView::HashExisting { dir: g.install_dir, file: asset_file(i) },
        ),
        launch_next(
            begin_asset(g, i).0,
            EventView::ExistingHashed { hash: Some(hex_lower(sha256(contents))) },
        ) == begin_asset(begin_asset(g, i).0, i + 1),
{
}

/// A file is moved into place only with a download whose hash matches, ASCII
/// case ignored, the hash that `SHA256SUMS.txt` lists for it, when the
/// listed hash is ASCII (a hex digest always is).
pub proof fn lemma_installed_file_matches_listed_hash(f: FlowView, text: Seq<char>, i: int)
    requires
        flow_inv(f),
        0 <= i < 3,
        f.stage == asset_at(i, AssetStep::MovingIntoPlace),
        f.checksums == entries_of_lines(lines(text)),
        listed_hash(text, asset_file(i)) is Some,
        all_ascii(listed_hash(text, asset_file(i))->0),
    ensures
        eq_ignore_case(f.download_hash, listed_hash(text, asset_file(i))->0),
{
    let raw = listed_hash(text, asset_file(i))->0;
    lemma_table_hash_is_listed_hash(lines(text), asset_file(i));
    lemma_eq_ignore_case_lowered(f.download_hash, raw);
}

/// An installed copy is kept, the flow moving on to the next file, when its
/// reported hash matches, ASCII case ignored, the hash that `SHA256SUMS.txt`
/// lists for it, when the listed hash is ASCII; otherwise the file is
/// downloaded again.
pub proof fn lemma_kept_file_matches_listed_hash(f: FlowView, text: Seq<char>, i: int, h: Seq<char>)
    requires
        stage_ok(f.stage),
        0 <= i < 3,
        f.stage == asset_at(i, AssetStep::CheckingExisting),
        f.checksums == entries_of_lines(lines(text)),
        listed_hash(text, asset_file(i)) is Some,
        all_ascii(listed_hash(text, asset_file(i))->0),
    ensures
        eq_ignore_case(h, listed_hash(text, asset_file(i))->0) ==> launch_next(
            f,
            EventView::ExistingHashed { hash: Some(h) },
        ) == begin_asset(f, i + 1),
        !eq_ignore_case(h, listed_hash(text, asset_file(i))->0) ==> launch_next(
            f,
            EventView::ExistingHashed { hash: Some(h) },
        ) == start_download(f, i),
{
    let raw = listed_hash(text, asset_file(i))->0;
    lemma_table_hash_is_listed_hash(lines(text), asset_file(i));
    lemma_eq_ignore_case_lowered(h, raw);
}

/// The request a run was started with stays as asked: no step changes the
/// tag, the chosen config, the app or the launch mode.
pub proof fn lemma_launch_keeps_request(f: FlowView, e: EventView)
    ensures
        launch_next(f, e).0.tag == f.tag,
        launch_next(f, e).0.config_id == f.config_id,
        launch_next(f, e).0.appid == f.appid,
        launch_next(f, e).0.auto_launch == f.auto_launch,
{
}

/// A run starts with the request as asked.
pub proof fn lemma_launch_start_keeps_request(
    tag: Seq<char>,
    config_id: Option<i32>,
    appid: i32,
    auto_launch: bool,
)
    ensures
        launch_start(tag, config_id, appid, auto_launch).0.tag == tag,
        launch_start(tag, config_id, appid, auto_launch).0.config_id == config_id,
        launch_start(tag, config_id, appid, auto_launch).0.appid == appid,
        launch_start(tag, config_id, appid, auto_launch).0.auto_launch == auto_launch,
{
}

/// The injector's mode is 3 whenever the game is not launched
/// automatically, whatever the app; launching automatically, it is 2 for
/// app 730 (the legacy branch) and 1 for any other (the standalone game).
pub proof fn lemma_headless_modes(appid: i32)
    ensures
        headless_choice(appid, false) == 3,
        headless_choice(730, true) == 2,
        appid != 730 ==> headless_choice(appid, true) == 1,
{
}

/// The last steps of a run, from finding the game: the cloud directory is
/// `nl_cloud` in the game folder found, or the launcher's own without one;
/// the server is started in the install directory with that cloud
/// directory and `--boot-config <id>` when a config was chosen, no arguments
/// otherwise; then the injector is started with the game folder found and
/// mode "3" when not launching automatically, "2" for app 730 and "1" for
/// any other app when launching automatically; then the run succeeds.
pub proof fn lemma_launch_final_steps(f: FlowView, found: Option<Seq<char>>, cloud: Seq<char>)
    requires
        f.stage == LaunchStage::LocatingGame,
    ensures
        ({
            let (f1, a1) = launch_next(f, EventView::GameLocated { dir: found });
            let (f2, a2) = launch_next(f1, EventView::CloudDirReady { dir: cloud });
            let (f3, a3) = launch_next(f2, EventView::Completed);
            &&& a1 == ActionView::PrepareCloudDir {
                dir: match found {
                    Some(g) => Some(seq![g, "nl_cloud"@]),
                    None => None,
                },
            }
            &&& a2 == ActionView::SpawnServer {
                dir: f.install_dir,
                exe: "neverlose-server.exe"@,
                cloud_dir: cloud,
                args: match f.config_id {
                    Some(id) => seq!["--boot-config"@, int_decimal(id as int)],
                    None => Seq::empty(),
                },
            }
            &&& a3 == ActionView::SpawnInjector {
                dir: f.install_dir,
                exe: "injector.exe"@,
                headless: if !f.auto_launch {
                    "3"@
                } else if f.appid == 730 {
                    "2"@
                } else {
                    "1"@
                },
                game_dir: found,
            }
            &&& launch_next(f3, EventView::Completed).1 == ActionView::Finish { outcome: Ok(()) }
        }),
{
    reveal_strlit("3");
    reveal_strlit("2");
    reveal_strlit("1");
    assert(int_decimal(3) =~= "3"@);
    assert(int_decimal(2) =~= "2"@);
    assert(int_decimal(1) =~= "1"@);
}

} // verus!
