//! The `setup` subcommand: which release to install, what to ask the user before
//! anything is changed, and what to record afterwards.
//!
//! A setup is a sequence of turns. In each, some notices are to be shown and one
//! thing is to be done; what came of it is the event that leads to the next turn.

use vstd::prelude::*;
use vstd::utf8::{decode_utf8, valid_utf8};

use crate::common::{installed_tool, package_dir, package_path, path_join, path_joined, tool_path};
use crate::decimal::{signed_decimal, signed_text};
use crate::release::{
    asset_suffix, available_versions, bundle, default_release, exact_release, find_exact, find_platform_asset, no_bundle,
    pick_default, platform_asset_suffix, release_models, sanitize_timestamp, sanitized_timestamp, sorted_versions,
    unsupported_platform, AssetModel, GhRelease, ReleaseModel, VersionInfo, REPO_NAME, REPO_OWNER,
};
use crate::runner_common::{code_or, succeeded, ProcessOutput};
use crate::size::{bytes_shown, format_bytes};
use crate::text::{
    eq_ignore_ascii_case, lines, lines_of, opt_string, same_ignoring_case, text_from_bytes, text_from_utf8, texts, trim,
    trimmed, utf8_lossy,
};
use crate::version::{
    fmt_series, invalid_release, join_versions, parse_release_spec, requested_release, series_shown, versions_joined,
    ReleaseSpec, Version, MAX_SUPPORTED_MINOR, MIN_SUPPORTED_MINOR, RELEASE_TAG,
};

verus! {

// ── asking ────────────────────────────────────────────────────────────────────

/// Whether what the user typed means yes: `y` or `yes`, in any letter case,
/// between white space.
pub open spec fn means_yes(input: Seq<char>) -> bool {
    same_ignoring_case(trimmed(input), "y"@) || same_ignoring_case(trimmed(input), "yes"@)
}

/// Whether what the user typed at a prompt means yes.
pub fn prompt_yes_no(input: &str) -> (r: bool)
    ensures
        r == means_yes(input@),
{
    let answer = trim(input);
    eq_ignore_ascii_case(answer, "y") || eq_ignore_ascii_case(answer, "yes")
}

// ── the parts of a turn ───────────────────────────────────────────────────────

/// What the user asked for, and where the setup takes place.
pub struct SetupOptions {
    /// Install from a local build instead of a release.
    pub local: Option<String>,
    /// The release to install.
    pub release: Option<String>,
    /// Skip every confirmation prompt.
    pub yes: bool,
    /// The operating system and the architecture of this machine.
    pub os: String,
    pub arch: String,
    /// The root of the install tree.
    pub base: String,
}

/// Something to show to the user.
#[derive(Debug)]
pub enum Notice<S> {
    Blank,
    Banner,
    /// The requested release is untested, as the text says.
    Untested(S),
    NoGuarantee,
    ProceedingAnyway,
    Aborted,
    NothingToDo,
    ReleaseFound { tag: S, published: S },
    Selected(S),
    UpToDate { published: S },
    WillReplace { from: S, to: S },
    Downloaded { name: S, size: S },
    Source(S),
    InstalledTo(S),
    /// A line that a tool printed.
    Progress(S),
    ToolchainFound(S),
    BuildingPlugins,
    PluginsBuilt,
    /// The setup succeeded: with a release of this name, or with a local build.
    Success(Option<S>),
    RunHint,
}

/// The one thing to do in a turn.
#[derive(Debug)]
pub enum SetupAction<S, B> {
    /// Find out whether a path exists.
    CheckPath(S),
    /// Ask the user a question.
    Ask(S),
    /// Fetch the release at this address.
    FetchNightly(S),
    /// Fetch the list of releases at this address.
    ListReleases(S),
    /// Read what is recorded of the installed release.
    ReadInstalled,
    /// Download an asset.
    Download { url: S, name: S, size: u64 },
    /// Put this archive in place.
    InstallArchive(B),
    /// Put the package in this directory in place.
    CopyPackage(S),
    /// Ask git for the commit of this checkout, and for its date.
    ReadGit(S),
    /// Record what is installed, and its human-readable name.
    Record { release_tag: S, published_at: S, release_id: u64, name: S },
    /// Ask this program for the path of the Rust toolchain.
    CheckToolchain(S),
    /// Pre-build the analyzer plugins.
    BuildPlugins,
    /// End the program with this exit code.
    Exit(i32),
    /// End the program with this error message.
    Fail(S),
    /// The setup is done.
    Finish,
}

/// What a setup is waiting for.
#[derive(Debug)]
pub enum Phase<R, S> {
    /// Whether the local path exists.
    LocalPath,
    /// Whether something is installed already.
    LocalDest,
    /// Whether to replace it by the local build.
    ConfirmLocal,
    /// Whether the local build has a package.
    LocalSource,
    /// The package of the local build to be put in place.
    LocalCopy,
    /// The commit of the local build.
    LocalGit,
    /// Whether to install an untested release.
    ConfirmUntested(ReleaseSpec),
    /// The nightly release.
    Nightly,
    /// The list of releases: to find this version, or the default.
    Listing(Option<Version>),
    /// What is recorded of the installed release.
    Installed { release: R, label: S },
    /// Whether to replace the installed release, or to install it again where it
    /// is the same.
    ConfirmReplace { release: R, label: S, same: bool },
    /// The download of an asset.
    Downloading { release: R, label: S, asset: S },
    /// The archive to be put in place.
    Installing { release: R, label: S },
    /// The installation to be recorded.
    Recording { name: Option<S> },
    /// The path of the Rust toolchain.
    Toolchain { name: Option<S> },
    /// The plugins to be built.
    Plugins { name: Option<S> },
    /// Nothing: the setup has ended.
    Ended,
}

/// What came of a request to the release service.
pub enum Fetched<T> {
    /// The service could not be reached, for the reason given.
    Unreachable(String),
    /// The service answered with this failure status.
    Refused(String),
    /// The answer could not be understood, for the reason given.
    Garbled(String),
    Got(T),
}

/// What came of a download.
pub enum DownloadOutcome {
    /// The request failed, for the reason given.
    Failed(String),
    /// The answer was this failure status.
    Refused(String),
    /// The transfer broke off, for the reason given.
    Broken(String),
    /// These bytes arrived.
    Got(Vec<u8>),
}

/// What came of the thing to do in a turn.
pub enum SetupEvent {
    /// It was done.
    Done,
    /// The path exists, or not.
    Exists(bool),
    /// The user typed this.
    Answer(String),
    Nightly(Fetched<GhRelease>),
    Releases(Fetched<Vec<GhRelease>>),
    /// What is recorded of the installed release, if anything is.
    Installed(Option<VersionInfo>),
    Downloaded(DownloadOutcome),
    /// The output of git on the commit, and on its date.
    Git { commit: Option<Vec<u8>>, date: Option<Vec<u8>> },
    /// The run of the toolchain check, or why it did not start.
    Toolchain(Result<ProcessOutput, String>),
    /// The exit code of the plugin build, or why it did not start.
    Plugins(Result<Option<i32>, String>),
}

// ── models ────────────────────────────────────────────────────────────────────

pub open spec fn notice_model(n: Notice<String>) -> Notice<Seq<char>> {
    match n {
        Notice::Blank => Notice::Blank,
        Notice::Banner => Notice::Banner,
        Notice::Untested(s) => Notice::Untested(s@),
        Notice::NoGuarantee => Notice::NoGuarantee,
        Notice::ProceedingAnyway => Notice::ProceedingAnyway,
        Notice::Aborted => Notice::Aborted,
        Notice::NothingToDo => Notice::NothingToDo,
        Notice::ReleaseFound { tag, published } => Notice::ReleaseFound {
            tag: tag@,
            published: published@,
        },
        Notice::Selected(s) => Notice::Selected(s@),
        Notice::UpToDate { published } => Notice::UpToDate { published: published@ },
        Notice::WillReplace { from, to } => Notice::WillReplace { from: from@, to: to@ },
        Notice::Downloaded { name, size } => Notice::Downloaded { name: name@, size: size@ },
        Notice::Source(s) => Notice::Source(s@),
        Notice::InstalledTo(s) => Notice::InstalledTo(s@),
        Notice::Progress(s) => Notice::Progress(s@),
        Notice::ToolchainFound(s) => Notice::ToolchainFound(s@),
        Notice::BuildingPlugins => Notice::BuildingPlugins,
        Notice::PluginsBuilt => Notice::PluginsBuilt,
        Notice::Success(name) => Notice::Success(opt_string(name)),
        Notice::RunHint => Notice::RunHint,
    }
}

pub open spec fn notice_models(v: Seq<Notice<String>>) -> Seq<Notice<Seq<char>>> {
    v.map_values(|n: Notice<String>| notice_model(n))
}

pub open spec fn action_model(a: SetupAction<String, Vec<u8>>) -> SetupAction<Seq<char>, Seq<u8>> {
    match a {
        SetupAction::CheckPath(s) => SetupAction::CheckPath(s@),
        SetupAction::Ask(s) => SetupAction::Ask(s@),
        SetupAction::FetchNightly(s) => SetupAction::FetchNightly(s@),
        SetupAction::ListReleases(s) => SetupAction::ListReleases(s@),
        SetupAction::ReadInstalled => SetupAction::ReadInstalled,
        SetupAction::Download { url, name, size } => SetupAction::Download {
            url: url@,
            name: name@,
            size,
        },
        SetupAction::InstallArchive(bytes) => SetupAction::InstallArchive(bytes@),
        SetupAction::CopyPackage(s) => SetupAction::CopyPackage(s@),
        SetupAction::ReadGit(s) => SetupAction::ReadGit(s@),
        SetupAction::Record { release_tag, published_at, release_id, name } => SetupAction::Record {
            release_tag: release_tag@,
            published_at: published_at@,
            release_id,
            name: name@,
        },
        SetupAction::CheckToolchain(s) => SetupAction::CheckToolchain(s@),
        SetupAction::BuildPlugins => SetupAction::BuildPlugins,
        SetupAction::Exit(code) => SetupAction::Exit(code),
        SetupAction::Fail(s) => SetupAction::Fail(s@),
        SetupAction::Finish => SetupAction::Finish,
    }
}

pub open spec fn phase_model(p: Phase<GhRelease, String>) -> Phase<ReleaseModel, Seq<char>> {
    match p {
        Phase::LocalPath => Phase::LocalPath,
        Phase::LocalDest => Phase::LocalDest,
        Phase::ConfirmLocal => Phase::ConfirmLocal,
        Phase::LocalSource => Phase::LocalSource,
        Phase::LocalCopy => Phase::LocalCopy,
        Phase::LocalGit => Phase::LocalGit,
        Phase::ConfirmUntested(spec) => Phase::ConfirmUntested(spec),
        Phase::Nightly => Phase::Nightly,
        Phase::Listing(want) => Phase::Listing(want),
        Phase::Installed { release, label } => Phase::Installed { release: release@, label: label@ },
        Phase::ConfirmReplace { release, label, same } => Phase::ConfirmReplace {
            release: release@,
            label: label@,
            same,
        },
        Phase::Downloading { release, label, asset } => Phase::Downloading {
            release: release@,
            label: label@,
            asset: asset@,
        },
        Phase::Installing { release, label } => Phase::Installing { release: release@, label: label@ },
        Phase::Recording { name } => Phase::Recording { name: opt_string(name) },
        Phase::Toolchain { name } => Phase::Toolchain { name: opt_string(name) },
        Phase::Plugins { name } => Phase::Plugins { name: opt_string(name) },
        Phase::Ended => Phase::Ended,
    }
}

/// A turn: what is to be shown, what is to be done, and what is waited for.
#[verifier::ext_equal]
pub struct TurnModel {
    pub phase: Phase<ReleaseModel, Seq<char>>,
    pub notices: Seq<Notice<Seq<char>>>,
    pub action: SetupAction<Seq<char>, Seq<u8>>,
}

pub open spec fn turn(
    phase: Phase<ReleaseModel, Seq<char>>,
    notices: Seq<Notice<Seq<char>>>,
    action: SetupAction<Seq<char>, Seq<u8>>,
) -> TurnModel {
    TurnModel { phase, notices, action }
}

/// The turn that ends a setup with an error message.
pub open spec fn failing(notices: Seq<Notice<Seq<char>>>, message: Seq<char>) -> TurnModel {
    turn(Phase::Ended, notices, SetupAction::Fail(message))
}

/// The turn that ends a setup that the user declined.
pub open spec fn declined(notices: Seq<Notice<Seq<char>>>) -> TurnModel {
    turn(Phase::Ended, notices, SetupAction::Exit(0))
}

// ── resolving the release ─────────────────────────────────────────────────────

/// The address of the nightly release.
pub open spec fn nightly_address() -> Seq<char> {
    "https://api.github.com/repos/"@ + REPO_OWNER@ + "/"@ + REPO_NAME@ + "/releases/tags/"@
        + RELEASE_TAG@
}

/// The address of the list of the most recent releases.
pub open spec fn listing_address() -> Seq<char> {
    "https://api.github.com/repos/"@ + REPO_OWNER@ + "/"@ + REPO_NAME@ + "/releases?per_page=100"@
}

/// The warning for a release that this program is not tested with: the nightly,
/// and any version outside the supported window.
pub open spec fn untested_warning(spec: ReleaseSpec) -> Option<Seq<char>> {
    match spec {
        ReleaseSpec::Nightly => Some("Installing the nightly (unversioned, rolling) release."@),
        ReleaseSpec::Exact(want) => if want.supported() {
            None
        } else {
            Some(
                "Release "@ + want.shown() + " is outside the supported range "@ + series_shown(
                    MIN_SUPPORTED_MINOR,
                ) + ".x – "@ + series_shown(MAX_SUPPORTED_MINOR) + ".x."@,
            )
        },
        ReleaseSpec::Default => None,
    }
}

/// The turn that looks up the release that was asked for.
pub open spec fn looking_up(spec: ReleaseSpec, notices: Seq<Notice<Seq<char>>>) -> TurnModel {
    match spec {
        ReleaseSpec::Nightly => turn(
            Phase::Nightly,
            notices,
            SetupAction::FetchNightly(nightly_address()),
        ),
        ReleaseSpec::Exact(want) => turn(
            Phase::Listing(Some(want)),
            notices,
            SetupAction::ListReleases(listing_address()),
        ),
        ReleaseSpec::Default => turn(
            Phase::Listing(None),
            notices,
            SetupAction::ListReleases(listing_address()),
        ),
    }
}

/// The banner.
pub open spec fn opening() -> Seq<Notice<Seq<char>>> {
    seq![Notice::Blank, Notice::Banner, Notice::Blank]
}

/// The first turn of a setup. The warning for an untested release, and the
/// question whether to go on, come before anything is fetched.
pub open spec fn setup_start(o: SetupOptions) -> TurnModel {
    match o.local {
        Some(path) => turn(Phase::LocalPath, opening(), SetupAction::CheckPath(path@)),
        None => match requested_release(opt_string(o.release)) {
            None => failing(opening(), invalid_release(o.release->0@)),
            Some(spec) => match untested_warning(spec) {
                None => looking_up(spec, opening()),
                Some(warning) => {
                    let warned = opening() + seq![Notice::Untested(warning), Notice::NoGuarantee];
                    if o.yes {
                        looking_up(spec, warned.push(Notice::ProceedingAnyway))
                    } else {
                        turn(
                            Phase::ConfirmUntested(spec),
                            warned,
                            SetupAction::Ask("Continue anyway? [y/N]"@),
                        )
                    }
                },
            },
        },
    }
}

/// When a release was published, as far as that is known.
pub open spec fn published_or_unknown(release: ReleaseModel) -> Seq<char> {
    match release.published_at {
        Some(p) => p,
        None => "unknown"@,
    }
}

/// The name under which a nightly release is recorded.
pub open spec fn nightly_label(release: ReleaseModel) -> Seq<char> {
    "nightly-"@ + (match release.published_at {
        Some(p) => sanitized_timestamp(p),
        None => "unknown"@,
    })
}

/// The turn after a release was resolved, to be recorded as `label`.
pub open spec fn resolved(
    release: ReleaseModel,
    label: Seq<char>,
    notices: Seq<Notice<Seq<char>>>,
) -> TurnModel {
    turn(Phase::Installed { release, label }, notices, SetupAction::ReadInstalled)
}

/// The turn after the nightly release was fetched.
pub open spec fn after_nightly(outcome: Fetched<GhRelease>) -> TurnModel {
    match outcome {
        Fetched::Unreachable(e) => failing(seq![], "Failed to reach GitHub API: "@ + e@),
        Fetched::Refused(status) => failing(
            seq![],
            "GitHub API returned "@ + status@ + " for release '"@ + RELEASE_TAG@
                + "'. Make sure the release exists on "@ + REPO_OWNER@ + "/"@ + REPO_NAME@ + "."@,
        ),
        Fetched::Garbled(e) => failing(
            seq![],
            "Failed to parse GitHub release response: "@ + e@,
        ),
        Fetched::Got(release) => resolved(
            release@,
            nightly_label(release@),
            seq![
                Notice::ReleaseFound {
                    tag: release.tag_name@,
                    published: published_or_unknown(release@),
                },
            ],
        ),
    }
}

/// The message for a version that no release has.
pub open spec fn no_such_release(want: Version, releases: Seq<ReleaseModel>) -> Seq<char> {
    "No release "@ + want.shown() + " found for "@ + REPO_OWNER@ + "/"@ + REPO_NAME@
        + ".\nAvailable versions: "@ + versions_joined(sorted_versions(releases))
}

/// The message for a list without a supported release.
pub open spec fn no_supported_release(releases: Seq<ReleaseModel>) -> Seq<char> {
    "No supported stable release found (need "@ + series_shown(MIN_SUPPORTED_MINOR) + ".x – "@
        + series_shown(MAX_SUPPORTED_MINOR) + ".x).\nAvailable versions: "@ + versions_joined(
        sorted_versions(releases),
    ) + "\nUse `--release nightly` or `--release X.Y.Z` to pick one explicitly."@
}

/// The turn after the releases were listed.
pub open spec fn after_listing(want: Option<Version>, outcome: Fetched<Vec<GhRelease>>) -> TurnModel {
    match outcome {
        Fetched::Unreachable(e) => failing(seq![], "Failed to reach GitHub API: "@ + e@),
        Fetched::Refused(status) => failing(
            seq![],
            "GitHub API returned "@ + status@ + " listing releases for "@ + REPO_OWNER@ + "/"@
                + REPO_NAME@ + "."@,
        ),
        Fetched::Garbled(e) => failing(
            seq![],
            "Failed to parse GitHub releases response: "@ + e@,
        ),
        Fetched::Got(list) => {
            let releases = release_models(list@);
            match want {
                Some(v) => match exact_release(releases, v) {
                    Some(release) => resolved(release, v.shown(), seq![]),
                    None => failing(seq![], no_such_release(v, releases)),
                },
                None => match default_release(releases) {
                    Some((v, release)) => resolved(
                        release,
                        v.shown(),
                        seq![Notice::Selected(v.shown())],
                    ),
                    None => failing(seq![], no_supported_release(releases)),
                },
            }
        },
    }
}

// ── replacing, downloading and recording ──────────────────────────────────────

/// The download of an asset.
pub open spec fn download_of(asset: AssetModel) -> SetupAction<Seq<char>, Seq<u8>> {
    SetupAction::Download {
        url: asset.browser_download_url,
        name: asset.name,
        size: asset.size,
    }
}

/// The turn that downloads the bundle of a release for this machine.
pub open spec fn fetching(
    o: SetupOptions,
    release: ReleaseModel,
    label: Seq<char>,
    notices: Seq<Notice<Seq<char>>>,
) -> TurnModel {
    match asset_suffix(o.os@, o.arch@) {
        None => failing(notices, unsupported_platform(o.os@, o.arch@)),
        Some(suffix) => match bundle(release.assets, suffix) {
            None => failing(notices, no_bundle(release, suffix)),
            Some(asset) => turn(
                Phase::Downloading { release, label, asset: asset.name },
                notices,
                download_of(asset),
            ),
        },
    }
}

/// The turn after it was read what is installed.
pub open spec fn after_installed(
    o: SetupOptions,
    release: ReleaseModel,
    label: Seq<char>,
    installed: Option<VersionInfo>,
) -> TurnModel {
    match installed {
        None => fetching(o, release, label, seq![]),
        Some(info) => {
            let same = info.release_id == release.id;
            let notice = if same {
                Notice::UpToDate { published: info.published_at@ }
            } else {
                Notice::WillReplace { from: info.published_at@, to: published_or_unknown(release) }
            };
            let question = if same {
                "Re-install anyway? [y/N]"@
            } else {
                "Continue? [y/N]"@
            };
            if o.yes {
                fetching(o, release, label, seq![notice, Notice::Blank])
            } else {
                turn(
                    Phase::ConfirmReplace { release, label, same },
                    seq![notice],
                    SetupAction::Ask(question),
                )
            }
        },
    }
}

/// The turn after the user was asked whether to replace the installed release.
pub open spec fn after_replace_answer(
    o: SetupOptions,
    release: ReleaseModel,
    label: Seq<char>,
    same: bool,
    answer: Seq<char>,
) -> TurnModel {
    if means_yes(answer) {
        fetching(o, release, label, seq![Notice::Blank])
    } else if same {
        declined(seq![Notice::Blank, Notice::NothingToDo])
    } else {
        declined(seq![Notice::Blank, Notice::Aborted])
    }
}

/// The turn after the download.
pub open spec fn after_download(
    release: ReleaseModel,
    label: Seq<char>,
    asset: Seq<char>,
    outcome: DownloadOutcome,
) -> TurnModel {
    match outcome {
        DownloadOutcome::Failed(e) => failing(seq![], "Download failed: "@ + e@),
        DownloadOutcome::Refused(status) => failing(seq![], "Download returned HTTP "@ + status@),
        DownloadOutcome::Broken(e) => failing(seq![], "Error reading download: "@ + e@),
        DownloadOutcome::Got(bytes) => turn(
            Phase::Installing { release, label },
            seq![Notice::Downloaded { name: asset, size: bytes_shown(bytes@.len()) }],
            SetupAction::InstallArchive(bytes@),
        ),
    }
}

/// The turn after the archive was put in place.
pub open spec fn after_install(
    o: SetupOptions,
    release: ReleaseModel,
    label: Seq<char>,
) -> TurnModel {
    turn(
        Phase::Recording { name: Some(label) },
        seq![Notice::InstalledTo(package_path(o.base@))],
        SetupAction::Record {
            release_tag: release.tag_name,
            published_at: match release.published_at {
                Some(p) => p,
                None => seq![],
            },
            release_id: release.id,
            name: label,
        },
    )
}

// ── local builds ──────────────────────────────────────────────────────────────

/// Where a local build has its package.
pub open spec fn local_package(path: Seq<char>) -> Seq<char> {
    path_joined(path_joined(path, "packages"@), "soteria-rust"@)
}

/// The turn that looks for the package of the local build.
pub open spec fn probing_local(path: Seq<char>, notices: Seq<Notice<Seq<char>>>) -> TurnModel {
    turn(Phase::LocalSource, notices, SetupAction::CheckPath(local_package(path)))
}

/// The turn after it was found out whether the local path exists.
pub open spec fn after_local_path(o: SetupOptions, path: Seq<char>, exists: bool) -> TurnModel {
    if exists {
        turn(Phase::LocalDest, seq![], SetupAction::CheckPath(package_path(o.base@)))
    } else {
        failing(seq![], "Path '"@ + path + "' does not exist."@)
    }
}

/// The turn after it was found out whether something is installed already.
pub open spec fn after_local_dest(o: SetupOptions, path: Seq<char>, exists: bool) -> TurnModel {
    if !exists {
        probing_local(path, seq![])
    } else if o.yes {
        probing_local(path, seq![Notice::Blank])
    } else {
        turn(
            Phase::ConfirmLocal,
            seq![],
            SetupAction::Ask("Soteria is already installed. Update from local path? [y/N]"@),
        )
    }
}

/// The turn after it was found out whether the local build has a package.
pub open spec fn after_local_source(path: Seq<char>, exists: bool) -> TurnModel {
    if exists {
        turn(
            Phase::LocalCopy,
            seq![Notice::Source(local_package(path))],
            SetupAction::CopyPackage(local_package(path)),
        )
    } else {
        failing(
            seq![],
            "Expected package directory not found at "@ + local_package(path)
                + ".\nBuild the package first (e.g. 'make package-soteria-rust')."@,
        )
    }
}

/// What git said, without outer white space; `unknown` where it did not run or
/// did not say it in UTF-8.
pub open spec fn git_said(output: Option<Vec<u8>>) -> Seq<char> {
    match output {
        Some(bytes) => if valid_utf8(bytes@) {
            trimmed(decode_utf8(bytes@))
        } else {
            "unknown"@
        },
        None => "unknown"@,
    }
}

/// The turn after git was asked for the commit of the local build.
pub open spec fn after_git(commit: Option<Vec<u8>>, date: Option<Vec<u8>>) -> TurnModel {
    turn(
        Phase::Recording { name: None },
        seq![],
        SetupAction::Record {
            release_tag: "local:"@ + git_said(commit),
            published_at: git_said(date),
            release_id: 0,
            name: "local-"@ + git_said(commit),
        },
    )
}

// ── the toolchain and the plugins ─────────────────────────────────────────────

/// The lines that have something on them.
pub open spec fn nonempty(all: Seq<Seq<char>>) -> Seq<Seq<char>>
    decreases all.len(),
{
    if all.len() == 0 {
        seq![]
    } else if all.last().len() > 0 {
        nonempty(all.drop_last()).push(all.last())
    } else {
        nonempty(all.drop_last())
    }
}

/// What is shown of the output of the toolchain check: the progress that it
/// reports, and last the path of the toolchain.
pub open spec fn toolchain_notices(shown: Seq<Seq<char>>) -> Seq<Notice<Seq<char>>> {
    if shown.len() == 0 {
        seq![Notice::ToolchainFound(seq![])]
    } else {
        shown.drop_last().map_values(|l: Seq<char>| Notice::Progress(l)).push(
            Notice::ToolchainFound(shown.last()),
        )
    }
}

/// What stands behind the colon in a message, where there is anything to say.
pub open spec fn detail_shown(detail: Seq<char>) -> Seq<char> {
    if detail.len() == 0 {
        seq![]
    } else {
        ": "@ + detail
    }
}

/// The turn after a toolchain check that ended with this exit code and this
/// output.
pub open spec fn toolchain_turn(
    name: Option<Seq<char>>,
    code: Option<i32>,
    stdout: Seq<char>,
    stderr: Seq<char>,
) -> TurnModel {
    if code == Some(0i32) {
        turn(
            Phase::Plugins { name },
            toolchain_notices(nonempty(lines(stdout))).push(Notice::BuildingPlugins),
            SetupAction::BuildPlugins,
        )
    } else {
        failing(
            seq![],
            "Toolchain check failed (exit "@ + signed_decimal(code_or(code, 1)) + ")"@
                + detail_shown(trimmed(stderr)),
        )
    }
}

/// The turn after the toolchain check.
pub open spec fn after_toolchain(
    name: Option<Seq<char>>,
    run: Result<ProcessOutput, String>,
) -> TurnModel {
    match run {
        Err(e) => failing(seq![], "Failed to run obol: "@ + e@),
        Ok(out) => toolchain_turn(
            name,
            out.code,
            utf8_lossy(out.stdout@),
            utf8_lossy(out.stderr@),
        ),
    }
}

/// The turn after the plugins were built.
pub open spec fn after_plugins(
    name: Option<Seq<char>>,
    run: Result<Option<i32>, String>,
) -> TurnModel {
    match run {
        Err(e) => failing(seq![], "Failed to run soteria-rust to build plugins: "@ + e@),
        Ok(code) => if code == Some(0i32) {
            turn(
                Phase::Ended,
                seq![
                    Notice::PluginsBuilt,
                    Notice::Blank,
                    Notice::Success(name),
                    Notice::Blank,
                    Notice::RunHint,
                    Notice::Blank,
                ],
                SetupAction::Finish,
            )
        } else {
            failing(
                seq![],
                "Building plugins failed (exit "@ + signed_decimal(code_or(code, 1)) + ")"@,
            )
        },
    }
}

// ── the whole setup ───────────────────────────────────────────────────────────

/// Whether an event is one that the phase waits for.
pub open spec fn awaited(
    o: SetupOptions,
    phase: Phase<ReleaseModel, Seq<char>>,
    event: SetupEvent,
) -> bool {
    match phase {
        Phase::LocalPath | Phase::LocalDest | Phase::LocalSource => o.local is Some
            && event is Exists,
        Phase::ConfirmLocal => o.local is Some && event is Answer,
        Phase::LocalCopy => o.local is Some && event is Done,
        Phase::LocalGit => event is Git,
        Phase::ConfirmUntested(_) => event is Answer,
        Phase::Nightly => event is Nightly,
        Phase::Listing(_) => event is Releases,
        Phase::Installed { .. } => event is Installed,
        Phase::ConfirmReplace { .. } => event is Answer,
        Phase::Downloading { .. } => event is Downloaded,
        Phase::Installing { .. } | Phase::Recording { .. } => event is Done,
        Phase::Toolchain { .. } => event is Toolchain,
        Phase::Plugins { .. } => event is Plugins,
        Phase::Ended => false,
    }
}

/// The turn that follows when a phase gets an event that it waits for.
pub open spec fn setup_next(
    o: SetupOptions,
    phase: Phase<ReleaseModel, Seq<char>>,
    event: SetupEvent,
) -> TurnModel {
    let path = o.local->0@;
    match phase {
        Phase::LocalPath => after_local_path(o, path, event->Exists_0),
        Phase::LocalDest => after_local_dest(o, path, event->Exists_0),
        Phase::ConfirmLocal => if means_yes(event->Answer_0@) {
            probing_local(path, seq![Notice::Blank])
        } else {
            declined(seq![Notice::Aborted])
        },
        Phase::LocalSource => after_local_source(path, event->Exists_0),
        Phase::LocalCopy => turn(
            Phase::LocalGit,
            seq![Notice::InstalledTo(package_path(o.base@))],
            SetupAction::ReadGit(path),
        ),
        Phase::LocalGit => after_git(event->Git_commit, event->Git_date),
        Phase::ConfirmUntested(spec) => if means_yes(event->Answer_0@) {
            looking_up(spec, seq![Notice::Blank])
        } else {
            declined(seq![Notice::Aborted])
        },
        Phase::Nightly => after_nightly(event->Nightly_0),
        Phase::Listing(want) => after_listing(want, event->Releases_0),
        Phase::Installed { release, label } => after_installed(
            o,
            release,
            label,
            event->Installed_0,
        ),
        Phase::ConfirmReplace { release, label, same } => after_replace_answer(
            o,
            release,
            label,
            same,
            event->Answer_0@,
        ),
        Phase::Downloading { release, label, asset } => after_download(
            release,
            label,
            asset,
            event->Downloaded_0,
        ),
        Phase::Installing { release, label } => after_install(o, release, label),
        Phase::Recording { name } => turn(
            Phase::Toolchain { name },
            seq![Notice::Blank],
            SetupAction::CheckToolchain(tool_path(package_path(o.base@), "obol"@)),
        ),
        Phase::Toolchain { name } => after_toolchain(name, event->Toolchain_0),
        Phase::Plugins { name } => after_plugins(name, event->Plugins_0),
        Phase::Ended => turn(Phase::Ended, seq![], SetupAction::Finish),
    }
}

/// A turn of a setup.
pub struct Turn {
    pub phase: Phase<GhRelease, String>,
    pub notices: Vec<Notice<String>>,
    pub action: SetupAction<String, Vec<u8>>,
}

impl View for Turn {
    type V = TurnModel;

    open spec fn view(&self) -> TurnModel {
        TurnModel {
            phase: phase_model(self.phase),
            notices: notice_models(self.notices@),
            action: action_model(self.action),
        }
    }
}

/// `prefix` with `rest` behind it.
fn prefixed(prefix: &str, rest: &str) -> (r: String)
    ensures
        r@ == prefix@ + rest@,
{
    let mut out = prefix.to_owned();
    out.append(rest);
    out
}

/// No notices.
fn silence() -> (r: Vec<Notice<String>>)
    ensures
        notice_models(r@) == Seq::<Notice<Seq<char>>>::empty(),
{
    Vec::new()
}

/// The notices followed by one more.
fn say(notices: Vec<Notice<String>>, notice: Notice<String>) -> (r: Vec<Notice<String>>)
    ensures
        notice_models(r@) == notice_models(notices@).push(notice_model(notice)),
{
    let mut r = notices;
    r.push(notice);
    assert(notice_models(r@) == notice_models(notices@).push(notice_model(notice)));
    r
}

/// A single notice.
fn saying(notice: Notice<String>) -> (r: Vec<Notice<String>>)
    ensures
        notice_models(r@) == seq![notice_model(notice)],
{
    say(silence(), notice)
}

/// The turn that ends a setup with an error message.
fn fail(notices: Vec<Notice<String>>, message: String) -> (r: Turn)
    ensures
        r@ == failing(notice_models(notices@), message@),
{
    Turn { phase: Phase::Ended, notices, action: SetupAction::Fail(message) }
}

/// The turn that ends a setup that the user declined.
fn decline(notices: Vec<Notice<String>>) -> (r: Turn)
    ensures
        r@ == declined(notice_models(notices@)),
{
    Turn { phase: Phase::Ended, notices, action: SetupAction::Exit(0) }
}

/// The address of the nightly release.
pub fn nightly_url() -> (r: String)
    ensures
        r@ == nightly_address(),
{
    let mut url = "https://api.github.com/repos/".to_owned();
    url.append(REPO_OWNER);
    url.append("/");
    url.append(REPO_NAME);
    url.append("/releases/tags/");
    url.append(RELEASE_TAG);
    url
}

/// The address of the list of the most recent releases.
pub fn listing_url() -> (r: String)
    ensures
        r@ == listing_address(),
{
    let mut url = "https://api.github.com/repos/".to_owned();
    url.append(REPO_OWNER);
    url.append("/");
    url.append(REPO_NAME);
    url.append("/releases?per_page=100");
    url
}

/// The warning for a release that this program is not tested with.
pub fn warning_for(spec: ReleaseSpec) -> (r: Option<String>)
    ensures
        opt_string(r) == untested_warning(spec),
{
    match spec {
        ReleaseSpec::Nightly => Some(
            "Installing the nightly (unversioned, rolling) release.".to_owned(),
        ),
        ReleaseSpec::Exact(want) => {
            if want.is_supported() {
                return None;
            }
            let mut msg = "Release ".to_owned();
            msg.append(want.to_string().as_str());
            msg.append(" is outside the supported range ");
            msg.append(fmt_series(MIN_SUPPORTED_MINOR).as_str());
            msg.append(".x – ");
            msg.append(fmt_series(MAX_SUPPORTED_MINOR).as_str());
            msg.append(".x.");
            Some(msg)
        },
        ReleaseSpec::Default => None,
    }
}

/// The turn that looks up the release that was asked for.
fn look_up(spec: ReleaseSpec, notices: Vec<Notice<String>>) -> (r: Turn)
    ensures
        r@ == looking_up(spec, notice_models(notices@)),
{
    match spec {
        ReleaseSpec::Nightly => Turn {
            phase: Phase::Nightly,
            notices,
            action: SetupAction::FetchNightly(nightly_url()),
        },
        ReleaseSpec::Exact(want) => Turn {
            phase: Phase::Listing(Some(want)),
            notices,
            action: SetupAction::ListReleases(listing_url()),
        },
        ReleaseSpec::Default => Turn {
            phase: Phase::Listing(None),
            notices,
            action: SetupAction::ListReleases(listing_url()),
        },
    }
}

/// Warn that the requested release is untested, then either honour `--yes` or ask
/// the user to confirm.
fn confirm_or_abort(
    yes: bool,
    spec: ReleaseSpec,
    warning: String,
    notices: Vec<Notice<String>>,
) -> (r: Turn)
    ensures
        ({
            let warned = notice_models(notices@) + seq![
                Notice::Untested(warning@),
                Notice::NoGuarantee,
            ];
            r@ == if yes {
                looking_up(spec, warned.push(Notice::ProceedingAnyway))
            } else {
                turn(
                    Phase::ConfirmUntested(spec),
                    warned,
                    SetupAction::Ask("Continue anyway? [y/N]"@),
                )
            }
        }),
{
    let ghost shown = notice_models(notices@);
    let warned = say(say(notices, Notice::Untested(warning)), Notice::NoGuarantee);
    assert(notice_models(warned@) == shown + seq![Notice::Untested(warning@), Notice::NoGuarantee]);
    if yes {
        look_up(spec, say(warned, Notice::ProceedingAnyway))
    } else {
        Turn {
            phase: Phase::ConfirmUntested(spec),
            notices: warned,
            action: SetupAction::Ask("Continue anyway? [y/N]".to_owned()),
        }
    }
}

/// Begin a setup.
pub fn cmd_setup(options: &SetupOptions) -> (r: Turn)
    ensures
        r@ == setup_start(*options),
{
    let notices = say(say(saying(Notice::Blank), Notice::Banner), Notice::Blank);
    assert(notice_models(notices@) == opening());
    if let Some(path) = &options.local {
        return Turn {
            phase: Phase::LocalPath,
            notices,
            action: SetupAction::CheckPath(path.clone()),
        };
    }
    let asked: Option<&str> = match &options.release {
        Some(release) => Some(release.as_str()),
        None => None,
    };
    match parse_release_spec(asked) {
        Err(message) => fail(notices, message),
        Ok(spec) => match warning_for(spec) {
            None => look_up(spec, notices),
            Some(warning) => confirm_or_abort(options.yes, spec, warning, notices),
        },
    }
}

/// The turn after a release was resolved, to be recorded as `label`.
fn resolve(release: GhRelease, label: String, notices: Vec<Notice<String>>) -> (r: Turn)
    ensures
        r@ == resolved(release@, label@, notice_models(notices@)),
{
    Turn {
        phase: Phase::Installed { release, label },
        notices,
        action: SetupAction::ReadInstalled,
    }
}

/// When a release was published, as far as that is known.
fn publication(release: &GhRelease) -> (r: String)
    ensures
        r@ == published_or_unknown(release@),
{
    match &release.published_at {
        Some(p) => p.clone(),
        None => "unknown".to_owned(),
    }
}

/// The name under which a nightly release is recorded.
fn label_nightly(release: &GhRelease) -> (r: String)
    ensures
        r@ == nightly_label(release@),
{
    match &release.published_at {
        Some(p) => prefixed("nightly-", sanitize_timestamp(p.as_str()).as_str()),
        None => prefixed("nightly-", "unknown"),
    }
}

/// Go on with what came of fetching the nightly release.
pub fn fetch_nightly_release(outcome: Fetched<GhRelease>) -> (r: Turn)
    ensures
        r@ == after_nightly(outcome),
{
    match outcome {
        Fetched::Unreachable(e) => fail(
            silence(),
            prefixed("Failed to reach GitHub API: ", e.as_str()),
        ),
        Fetched::Refused(status) => {
            let mut msg = "GitHub API returned ".to_owned();
            msg.append(status.as_str());
            msg.append(" for release '");
            msg.append(RELEASE_TAG);
            msg.append("'. Make sure the release exists on ");
            msg.append(REPO_OWNER);
            msg.append("/");
            msg.append(REPO_NAME);
            msg.append(".");
            fail(silence(), msg)
        },
        Fetched::Garbled(e) => fail(
            silence(),
            prefixed("Failed to parse GitHub release response: ", e.as_str()),
        ),
        Fetched::Got(release) => {
            let label = label_nightly(&release);
            let notices = saying(
                Notice::ReleaseFound {
                    tag: release.tag_name.clone(),
                    published: publication(&release),
                },
            );
            resolve(release, label, notices)
        },
    }
}

/// The message for a version that no release has.
fn missing_release(want: Version, releases: &[GhRelease]) -> (r: String)
    ensures
        r@ == no_such_release(want, release_models(releases@)),
{
    let mut msg = "No release ".to_owned();
    msg.append(want.to_string().as_str());
    msg.append(" found for ");
    msg.append(REPO_OWNER);
    msg.append("/");
    msg.append(REPO_NAME);
    msg.append(".\nAvailable versions: ");
    msg.append(join_versions(available_versions(releases).as_slice()).as_str());
    msg
}

/// The message for a list without a supported release.
fn missing_supported(releases: &[GhRelease]) -> (r: String)
    ensures
        r@ == no_supported_release(release_models(releases@)),
{
    let mut msg = "No supported stable release found (need ".to_owned();
    msg.append(fmt_series(MIN_SUPPORTED_MINOR).as_str());
    msg.append(".x – ");
    msg.append(fmt_series(MAX_SUPPORTED_MINOR).as_str());
    msg.append(".x).\nAvailable versions: ");
    msg.append(join_versions(available_versions(releases).as_slice()).as_str());
    msg.append("\nUse `--release nightly` or `--release X.Y.Z` to pick one explicitly.");
    msg
}

/// Go on with what came of listing the releases.
pub fn resolve_release(want: Option<Version>, outcome: Fetched<Vec<GhRelease>>) -> (r: Turn)
    ensures
        r@ == after_listing(want, outcome),
{
    let list = match outcome {
        Fetched::Unreachable(e) => {
            return fail(silence(), prefixed("Failed to reach GitHub API: ", e.as_str()));
        },
        Fetched::Refused(status) => {
            let mut msg = "GitHub API returned ".to_owned();
            msg.append(status.as_str());
            msg.append(" listing releases for ");
            msg.append(REPO_OWNER);
            msg.append("/");
            msg.append(REPO_NAME);
            msg.append(".");
            return fail(silence(), msg);
        },
        Fetched::Garbled(e) => {
            return fail(
                silence(),
                prefixed("Failed to parse GitHub releases response: ", e.as_str()),
            );
        },
        Fetched::Got(list) => list,
    };
    match want {
        Some(v) => match find_exact(list.as_slice(), v) {
            Some(release) => resolve(release.clone(), v.to_string(), silence()),
            None => fail(silence(), missing_release(v, list.as_slice())),
        },
        None => match pick_default(list.as_slice()) {
            Some((v, release)) => resolve(
                release.clone(),
                v.to_string(),
                saying(Notice::Selected(v.to_string())),
            ),
            None => fail(silence(), missing_supported(list.as_slice())),
        },
    }
}

/// The turn that downloads the bundle of a release for this machine.
fn fetch_bundle(
    options: &SetupOptions,
    release: GhRelease,
    label: String,
    notices: Vec<Notice<String>>,
) -> (r: Turn)
    ensures
        r@ == fetching(*options, release@, label@, notice_models(notices@)),
{
    let suffix = match platform_asset_suffix(options.os.as_str(), options.arch.as_str()) {
        Ok(suffix) => suffix,
        Err(message) => {
            return fail(notices, message);
        },
    };
    let (url, name, size): (String, String, u64) = match find_platform_asset(&release, suffix) {
        Ok(asset) => (asset.browser_download_url.clone(), asset.name.clone(), asset.size),
        Err(message) => {
            return fail(notices, message);
        },
    };
    let asset = name.clone();
    Turn {
        phase: Phase::Downloading { release, label, asset },
        notices,
        action: SetupAction::Download { url, name, size },
    }
}

/// Go on with what is recorded of the installed release.
fn check_installed(
    options: &SetupOptions,
    release: GhRelease,
    label: String,
    installed: Option<VersionInfo>,
) -> (r: Turn)
    ensures
        r@ == after_installed(*options, release@, label@, installed),
{
    let info = match installed {
        Some(info) => info,
        None => {
            return fetch_bundle(options, release, label, silence());
        },
    };
    let same: bool = info.release_id == release.id;
    let notices = saying(
        if same {
            Notice::UpToDate { published: info.published_at }
        } else {
            Notice::WillReplace { from: info.published_at, to: publication(&release) }
        },
    );
    if options.yes {
        return fetch_bundle(options, release, label, say(notices, Notice::Blank));
    }
    let question = if same {
        "Re-install anyway? [y/N]"
    } else {
        "Continue? [y/N]"
    };
    Turn {
        phase: Phase::ConfirmReplace { release, label, same },
        notices,
        action: SetupAction::Ask(question.to_owned()),
    }
}

/// Go on with the answer to whether to replace the installed release.
fn answer_replace(
    options: &SetupOptions,
    release: GhRelease,
    label: String,
    same: bool,
    answer: &str,
) -> (r: Turn)
    ensures
        r@ == after_replace_answer(*options, release@, label@, same, answer@),
{
    let notices = saying(Notice::Blank);
    if prompt_yes_no(answer) {
        fetch_bundle(options, release, label, notices)
    } else if same {
        decline(say(notices, Notice::NothingToDo))
    } else {
        decline(say(notices, Notice::Aborted))
    }
}

/// Go on with what came of the download.
pub fn download_bytes(
    release: GhRelease,
    label: String,
    asset: String,
    outcome: DownloadOutcome,
) -> (r: Turn)
    ensures
        r@ == after_download(release@, label@, asset@, outcome),
{
    match outcome {
        DownloadOutcome::Failed(e) => fail(silence(), prefixed("Download failed: ", e.as_str())),
        DownloadOutcome::Refused(status) => fail(
            silence(),
            prefixed("Download returned HTTP ", status.as_str()),
        ),
        DownloadOutcome::Broken(e) => fail(
            silence(),
            prefixed("Error reading download: ", e.as_str()),
        ),
        DownloadOutcome::Got(bytes) => Turn {
            phase: Phase::Installing { release, label },
            notices: saying(
                Notice::Downloaded { name: asset, size: format_bytes(bytes.len() as u64) },
            ),
            action: SetupAction::InstallArchive(bytes),
        },
    }
}

/// Go on after the archive was put in place.
fn record_release(options: &SetupOptions, release: GhRelease, label: String) -> (r: Turn)
    ensures
        r@ == after_install(*options, release@, label@),
{
    let published_at = match release.published_at {
        Some(p) => p,
        None => String::new(),
    };
    Turn {
        phase: Phase::Recording { name: Some(label.clone()) },
        notices: saying(Notice::InstalledTo(package_dir(options.base.as_str()))),
        action: SetupAction::Record {
            release_tag: release.tag_name,
            published_at,
            release_id: release.id,
            name: label,
        },
    }
}

/// Where a local build has its package.
fn package_of_build(path: &str) -> (r: String)
    ensures
        r@ == local_package(path@),
{
    path_join(path_join(path, "packages").as_str(), "soteria-rust")
}

/// The turn that looks for the package of the local build.
fn probe_local(path: &str, notices: Vec<Notice<String>>) -> (r: Turn)
    ensures
        r@ == probing_local(path@, notice_models(notices@)),
{
    Turn {
        phase: Phase::LocalSource,
        notices,
        action: SetupAction::CheckPath(package_of_build(path)),
    }
}

/// Go on with whether the local path exists.
fn check_local_path(options: &SetupOptions, path: &str, exists: bool) -> (r: Turn)
    ensures
        r@ == after_local_path(*options, path@, exists),
{
    if exists {
        return Turn {
            phase: Phase::LocalDest,
            notices: silence(),
            action: SetupAction::CheckPath(package_dir(options.base.as_str())),
        };
    }
    let mut msg = prefixed("Path '", path);
    msg.append("' does not exist.");
    fail(silence(), msg)
}

/// Go on with whether something is installed already.
fn check_local_dest(options: &SetupOptions, path: &str, exists: bool) -> (r: Turn)
    ensures
        r@ == after_local_dest(*options, path@, exists),
{
    if !exists {
        return probe_local(path, silence());
    }
    if options.yes {
        return probe_local(path, saying(Notice::Blank));
    }
    Turn {
        phase: Phase::ConfirmLocal,
        notices: silence(),
        action: SetupAction::Ask(
            "Soteria is already installed. Update from local path? [y/N]".to_owned(),
        ),
    }
}

/// Go on with whether the local build has a package.
pub fn install_from_local(path: &str, exists: bool) -> (r: Turn)
    ensures
        r@ == after_local_source(path@, exists),
{
    let source = package_of_build(path);
    if exists {
        return Turn {
            phase: Phase::LocalCopy,
            notices: saying(Notice::Source(source.clone())),
            action: SetupAction::CopyPackage(source),
        };
    }
    let mut msg = prefixed("Expected package directory not found at ", source.as_str());
    msg.append(".\nBuild the package first (e.g. 'make package-soteria-rust').");
    fail(silence(), msg)
}

/// What git said, without outer white space; `unknown` where it did not run or
/// did not say it in UTF-8.
pub fn git_metadata(output: Option<Vec<u8>>) -> (r: String)
    ensures
        r@ == git_said(output),
{
    let text: Option<String> = match output {
        Some(bytes) => text_from_utf8(bytes),
        None => None,
    };
    match text {
        Some(s) => trim(s.as_str()).to_owned(),
        None => "unknown".to_owned(),
    }
}

/// Go on with what git said of the local build.
fn record_local(commit: Option<Vec<u8>>, date: Option<Vec<u8>>) -> (r: Turn)
    ensures
        r@ == after_git(commit, date),
{
    let sha = git_metadata(commit);
    Turn {
        phase: Phase::Recording { name: None },
        notices: silence(),
        action: SetupAction::Record {
            release_tag: prefixed("local:", sha.as_str()),
            published_at: git_metadata(date),
            release_id: 0,
            name: prefixed("local-", sha.as_str()),
        },
    }
}

/// The lines that have something on them.
fn keep_nonempty(all: Vec<String>) -> (r: Vec<String>)
    ensures
        texts(r@) == nonempty(texts(all@)),
{
    let n: usize = all.len();
    let ghost views = texts(all@);
    let mut kept: Vec<String> = Vec::new();
    assert(texts(kept@) == nonempty(views.take(0)));
    for i in 0..n
        invariant
            n == all@.len(),
            views == texts(all@),
            texts(kept@) == nonempty(views.take(i as int)),
    {
        let line = &all[i];
        assert(views.take(i as int + 1).drop_last() == views.take(i as int));
        assert(views.take(i as int + 1).last() == line@);
        if line.as_str().unicode_len() > 0 {
            let ghost before = kept@;
            let copy = line.clone();
            kept.push(copy);
            assert(texts(kept@) == texts(before).push(copy@));
        }
    }
    assert(views.take(n as int) == views);
    kept
}

/// What is shown of the output of the toolchain check.
fn show_toolchain(shown: Vec<String>) -> (r: Vec<Notice<String>>)
    ensures
        notice_models(r@) == toolchain_notices(texts(shown@)),
{
    let n: usize = shown.len();
    if n == 0 {
        return saying(Notice::ToolchainFound(String::new()));
    }
    let ghost views = texts(shown@);
    let mut notices = silence();
    for i in 0..n - 1
        invariant
            n == shown@.len() > 0,
            views == texts(shown@),
            notice_models(notices@) == views.take(i as int).map_values(
                |l: Seq<char>| Notice::Progress(l),
            ),
    {
        assert(views.take(i as int + 1) == views.take(i as int).push(shown[i as int]@));
        notices = say(notices, Notice::Progress(shown[i].clone()));
        assert(notice_models(notices@) == views.take(i as int + 1).map_values(
            |l: Seq<char>| Notice::Progress(l),
        ));
    }
    assert(views.take(n - 1) == views.drop_last());
    say(notices, Notice::ToolchainFound(shown[n - 1].clone()))
}

/// Go on with a toolchain check that ended with this exit code and this output. It
/// may report installation progress before the final path: such lines are shown as
/// they are, and the last line is the path.
pub fn toolchain_checked(name: Option<String>, code: Option<i32>, stdout: &str, stderr: &str) -> (r:
    Turn)
    ensures
        r@ == toolchain_turn(opt_string(name), code, stdout@, stderr@),
{
    if succeeded(code) {
        let notices = show_toolchain(keep_nonempty(lines_of(stdout)));
        return Turn {
            phase: Phase::Plugins { name },
            notices: say(notices, Notice::BuildingPlugins),
            action: SetupAction::BuildPlugins,
        };
    }
    let detail = trim(stderr);
    let mut msg = prefixed("Toolchain check failed (exit ", exit_shown(code).as_str());
    msg.append(")");
    let ghost head = msg@;
    if detail.unicode_len() > 0 {
        msg.append(prefixed(": ", detail).as_str());
    }
    assert(msg@ == head + detail_shown(detail@));
    fail(silence(), msg)
}

/// Go on with the toolchain check.
pub fn check_toolchain(name: Option<String>, run: Result<ProcessOutput, String>) -> (r: Turn)
    ensures
        r@ == after_toolchain(opt_string(name), run),
{
    match run {
        Ok(out) => {
            let stdout = text_from_bytes(out.stdout.as_slice());
            let stderr = text_from_bytes(out.stderr.as_slice());
            toolchain_checked(name, out.code, stdout.as_str(), stderr.as_str())
        },
        Err(e) => fail(silence(), prefixed("Failed to run obol: ", e.as_str())),
    }
}

/// The exit code as messages show it: 1 stands for a process that a signal ended.
fn exit_shown(code: Option<i32>) -> (r: String)
    ensures
        r@ == signed_decimal(code_or(code, 1)),
{
    let shown: i32 = match code {
        Some(c) => c,
        None => 1,
    };
    signed_text(shown)
}

/// Go on with the plugin build, which spares the first real run the compilation.
pub fn build_plugins(name: Option<String>, run: Result<Option<i32>, String>) -> (r: Turn)
    ensures
        r@ == after_plugins(opt_string(name), run),
{
    match run {
        Err(e) => fail(
            silence(),
            prefixed("Failed to run soteria-rust to build plugins: ", e.as_str()),
        ),
        Ok(code) => {
            if !succeeded(code) {
                let mut msg = prefixed("Building plugins failed (exit ", exit_shown(code).as_str());
                msg.append(")");
                return fail(silence(), msg);
            }
            let done = say(saying(Notice::PluginsBuilt), Notice::Blank);
            let named = say(say(done, Notice::Success(name)), Notice::Blank);
            Turn {
                phase: Phase::Ended,
                notices: say(say(named, Notice::RunHint), Notice::Blank),
                action: SetupAction::Finish,
            }
        },
    }
}

/// Go on with a setup: the turn that follows when `phase` gets `event`, or `None`
/// where that is not what the phase waits for.
pub fn setup_step(
    options: &SetupOptions,
    phase: Phase<GhRelease, String>,
    event: SetupEvent,
) -> (r: Option<Turn>)
    ensures
        match r {
            Some(t) => awaited(*options, phase_model(phase), event) && t@ == setup_next(
                *options,
                phase_model(phase),
                event,
            ),
            None => !awaited(*options, phase_model(phase), event),
        },
{
    let local: Option<&str> = match &options.local {
        Some(path) => Some(path.as_str()),
        None => None,
    };
    let base = options.base.as_str();
    match (phase, event, local) {
        (Phase::LocalPath, SetupEvent::Exists(exists), Some(path)) => Some(
            check_local_path(options, path, exists),
        ),
        (Phase::LocalDest, SetupEvent::Exists(exists), Some(path)) => Some(
            check_local_dest(options, path, exists),
        ),
        (Phase::ConfirmLocal, SetupEvent::Answer(answer), Some(path)) => Some(
            if prompt_yes_no(answer.as_str()) {
                probe_local(path, saying(Notice::Blank))
            } else {
                decline(saying(Notice::Aborted))
            },
        ),
        (Phase::LocalSource, SetupEvent::Exists(exists), Some(path)) => Some(
            install_from_local(path, exists),
        ),
        (Phase::LocalCopy, SetupEvent::Done, Some(path)) => Some(
            Turn {
                phase: Phase::LocalGit,
                notices: saying(Notice::InstalledTo(package_dir(base))),
                action: SetupAction::ReadGit(path.to_owned()),
            },
        ),
        (Phase::LocalGit, SetupEvent::Git { commit, date }, _) => Some(record_local(commit, date)),
        (Phase::ConfirmUntested(spec), SetupEvent::Answer(answer), _) => Some(
            if prompt_yes_no(answer.as_str()) {
                look_up(spec, saying(Notice::Blank))
            } else {
                decline(saying(Notice::Aborted))
            },
        ),
        (Phase::Nightly, SetupEvent::Nightly(outcome), _) => Some(fetch_nightly_release(outcome)),
        (Phase::Listing(want), SetupEvent::Releases(outcome), _) => Some(
            resolve_release(want, outcome),
        ),
        (Phase::Installed { release, label }, SetupEvent::Installed(installed), _) => Some(
            check_installed(options, release, label, installed),
        ),
        (Phase::ConfirmReplace { release, label, same }, SetupEvent::Answer(answer), _) => Some(
            answer_replace(options, release, label, same, answer.as_str()),
        ),
        (Phase::Downloading { release, label, asset }, SetupEvent::Downloaded(outcome), _) => Some(
            download_bytes(release, label, asset, outcome),
        ),
        (Phase::Installing { release, label }, SetupEvent::Done, _) => Some(
            record_release(options, release, label),
        ),
        (Phase::Recording { name }, SetupEvent::Done, _) => Some(
            Turn {
                phase: Phase::Toolchain { name },
                notices: saying(Notice::Blank),
                action: SetupAction::CheckToolchain(
                    installed_tool(package_dir(base).as_str(), "obol"),
                ),
            },
        ),
        (Phase::Toolchain { name }, SetupEvent::Toolchain(run), _) => Some(
            check_toolchain(name, run),
        ),
        (Phase::Plugins { name }, SetupEvent::Plugins(run), _) => Some(build_plugins(name, run)),
        _ => None,
    }
}

} // verus!
