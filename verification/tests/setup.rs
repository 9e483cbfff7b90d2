use cargo_soteria::release::{GhAsset, GhRelease, VersionInfo};
use cargo_soteria::runner_common::ProcessOutput;
use cargo_soteria::setup::{
    cmd_setup, git_metadata, prompt_yes_no, setup_step, DownloadOutcome, Fetched, Notice, Phase, SetupAction, SetupEvent,
    SetupOptions, Turn,
};

fn options() -> SetupOptions {
    SetupOptions {
        local: None,
        release: None,
        yes: false,
        os: "linux".to_string(),
        arch: "x86_64".to_string(),
        base: "/s".to_string(),
    }
}

fn asking(release: &str) -> SetupOptions {
    SetupOptions { release: Some(release.to_string()), ..options() }
}

fn local(yes: bool) -> SetupOptions {
    SetupOptions { local: Some("/src".to_string()), yes, ..options() }
}

fn rel(tag: &str, id: u64) -> GhRelease {
    GhRelease {
        id,
        tag_name: tag.to_string(),
        published_at: Some("2026-01-02T03:04:05Z".to_string()),
        assets: vec![
            GhAsset { name: "soteria-c-linux-x86_64.zip".to_string(), browser_download_url: "u0".to_string(), size: 1 },
            GhAsset { name: "soteria-rust-linux-x86_64.zip".to_string(), browser_download_url: "u1".to_string(), size: 9 },
        ],
    }
}

fn info(id: u64) -> VersionInfo {
    VersionInfo { release_tag: "t".to_string(), published_at: "then".to_string(), release_id: id }
}

fn step(o: &SetupOptions, turn: Turn, event: SetupEvent) -> Turn {
    setup_step(o, turn.phase, event).expect("an event that is waited for")
}

fn answer(text: &str) -> SetupEvent {
    SetupEvent::Answer(text.to_string())
}

fn output(code: Option<i32>, stdout: &str, stderr: &str) -> SetupEvent {
    SetupEvent::Toolchain(Ok(ProcessOutput {
        code,
        stdout: stdout.as_bytes().to_vec(),
        stderr: stderr.as_bytes().to_vec(),
    }))
}

fn failure(turn: Turn) -> String {
    match turn.action {
        SetupAction::Fail(message) => message,
        other => panic!("expected a failure, got {other:?}"),
    }
}

fn question(turn: &Turn) -> &str {
    match &turn.action {
        SetupAction::Ask(q) => q,
        other => panic!("expected a question, got {other:?}"),
    }
}

/// The notices as they are told apart here.
fn told(turn: &Turn) -> Vec<String> {
    turn.notices.iter().map(|n| format!("{n:?}")).collect()
}

const LIST: &str = "https://api.github.com/repos/soteria-tools/soteria/releases?per_page=100";

#[test]
fn the_default_release_is_installed_and_recorded() {
    let o = options();
    let turn = cmd_setup(&o);
    assert_eq!(told(&turn), ["Blank", "Banner", "Blank"]);
    assert!(matches!(&turn.action, SetupAction::ListReleases(url) if url == LIST));

    let releases = vec![rel("nightly", 1), rel("0.1.3", 2), rel("v0.1.4", 3), rel("0.2.0", 4)];
    let turn = step(&o, turn, SetupEvent::Releases(Fetched::Got(releases)));
    assert_eq!(told(&turn), ["Selected(\"0.1.4\")"]);
    assert!(matches!(turn.action, SetupAction::ReadInstalled));

    let turn = step(&o, turn, SetupEvent::Installed(None));
    assert!(told(&turn).is_empty());
    assert!(matches!(
        &turn.action,
        SetupAction::Download { url, name, size: 9 } if url == "u1" && name == "soteria-rust-linux-x86_64.zip"
    ));

    let turn = step(&o, turn, SetupEvent::Downloaded(DownloadOutcome::Got(vec![7; 27_340])));
    assert_eq!(told(&turn), ["Downloaded { name: \"soteria-rust-linux-x86_64.zip\", size: \"27.3 KB\" }"]);
    assert!(matches!(&turn.action, SetupAction::InstallArchive(bytes) if *bytes == vec![7; 27_340]));

    let turn = step(&o, turn, SetupEvent::Done);
    assert_eq!(told(&turn), ["InstalledTo(\"/s/soteria-release\")"]);
    assert!(matches!(
        &turn.action,
        SetupAction::Record { release_tag, published_at, release_id: 3, name }
            if release_tag == "v0.1.4" && published_at == "2026-01-02T03:04:05Z" && name == "0.1.4"
    ));

    let turn = step(&o, turn, SetupEvent::Done);
    assert_eq!(told(&turn), ["Blank"]);
    assert!(matches!(&turn.action, SetupAction::CheckToolchain(p) if p == "/s/soteria-release/bin/obol"));

    let turn = step(&o, turn, output(Some(0), "installing\n\nmore\r\n/tool/chain\n", ""));
    assert_eq!(
        told(&turn),
        ["Progress(\"installing\")", "Progress(\"more\")", "ToolchainFound(\"/tool/chain\")", "BuildingPlugins"]
    );
    assert!(matches!(turn.action, SetupAction::BuildPlugins));

    let turn = step(&o, turn, SetupEvent::Plugins(Ok(Some(0))));
    assert_eq!(told(&turn), ["PluginsBuilt", "Blank", "Success(Some(\"0.1.4\"))", "Blank", "RunHint", "Blank"]);
    assert!(matches!(turn.action, SetupAction::Finish));
    assert!(matches!(turn.phase, Phase::Ended));
    assert!(setup_step(&o, turn.phase, SetupEvent::Done).is_none());
}

#[test]
fn nothing_is_fetched_of_an_untested_release_before_consent() {
    for (release, warning) in [
        ("nightly", "Installing the nightly (unversioned, rolling) release."),
        ("0.9.1", "Release 0.9.1 is outside the supported range 0.1.x – 0.1.x."),
    ] {
        let o = asking(release);
        let turn = cmd_setup(&o);
        assert_eq!(
            told(&turn),
            ["Blank".to_string(), "Banner".into(), "Blank".into(), format!("Untested({warning:?})"), "NoGuarantee".into()]
        );
        assert_eq!(question(&turn), "Continue anyway? [y/N]");
        let no = step(&o, cmd_setup(&o), answer("n\n"));
        assert_eq!(told(&no), ["Aborted"]);
        assert!(matches!(no.action, SetupAction::Exit(0)));
        let yes = step(&o, turn, answer("y\n"));
        assert_eq!(told(&yes), ["Blank"]);
        assert!(matches!(yes.action, SetupAction::FetchNightly(_) | SetupAction::ListReleases(_)));

        let o = SetupOptions { yes: true, ..asking(release) };
        let turn = cmd_setup(&o);
        assert_eq!(told(&turn)[5..], ["ProceedingAnyway"]);
        assert!(matches!(turn.action, SetupAction::FetchNightly(_) | SetupAction::ListReleases(_)));
    }
    // A supported version needs no consent.
    let turn = cmd_setup(&asking("0.1.9"));
    assert_eq!(told(&turn).len(), 3);
    assert!(matches!(turn.action, SetupAction::ListReleases(_)));
}

#[test]
fn the_nightly_is_recorded_with_its_date() {
    let o = SetupOptions { yes: true, ..asking("Nightly") };
    let turn = cmd_setup(&o);
    assert!(matches!(
        &turn.action,
        SetupAction::FetchNightly(url)
            if url == "https://api.github.com/repos/soteria-tools/soteria/releases/tags/nightly"
    ));
    let turn = step(&o, turn, SetupEvent::Nightly(Fetched::Got(rel("nightly", 7))));
    assert_eq!(told(&turn), ["ReleaseFound { tag: \"nightly\", published: \"2026-01-02T03:04:05Z\" }"]);
    let turn = step(&o, turn, SetupEvent::Installed(None));
    let turn = step(&o, turn, SetupEvent::Downloaded(DownloadOutcome::Got(vec![1, 2, 3])));
    let turn = step(&o, turn, SetupEvent::Done);
    assert!(matches!(&turn.action, SetupAction::Record { name, .. } if name == "nightly-2026-01-02-03-04-05"));

    let mut draft = rel("nightly", 8);
    draft.published_at = None;
    let turn = step(&o, cmd_setup(&o), SetupEvent::Nightly(Fetched::Got(draft)));
    assert_eq!(told(&turn), ["ReleaseFound { tag: \"nightly\", published: \"unknown\" }"]);
    let turn = step(&o, turn, SetupEvent::Installed(Some(info(1))));
    assert_eq!(told(&turn), ["WillReplace { from: \"then\", to: \"unknown\" }", "Blank"]);
    let turn = step(&o, turn, SetupEvent::Downloaded(DownloadOutcome::Got(vec![1, 2, 3])));
    let turn = step(&o, turn, SetupEvent::Done);
    assert!(matches!(
        &turn.action,
        SetupAction::Record { name, published_at, .. } if name == "nightly-unknown" && published_at.is_empty()
    ));
}

fn resolved(o: &SetupOptions) -> Turn {
    step(o, cmd_setup(o), SetupEvent::Releases(Fetched::Got(vec![rel("0.1.4", 3)])))
}

#[test]
fn an_installed_release_is_replaced_only_with_consent() {
    let o = options();
    let same = step(&o, resolved(&o), SetupEvent::Installed(Some(info(3))));
    assert_eq!(told(&same), ["UpToDate { published: \"then\" }"]);
    assert_eq!(question(&same), "Re-install anyway? [y/N]");
    let no = step(&o, same, answer(""));
    assert_eq!(told(&no), ["Blank", "NothingToDo"]);
    assert!(matches!(no.action, SetupAction::Exit(0)));

    let other = step(&o, resolved(&o), SetupEvent::Installed(Some(info(2))));
    assert_eq!(told(&other), ["WillReplace { from: \"then\", to: \"2026-01-02T03:04:05Z\" }"]);
    assert_eq!(question(&other), "Continue? [y/N]");
    let no = step(&o, other, answer("nope"));
    assert_eq!(told(&no), ["Blank", "Aborted"]);
    assert!(matches!(no.action, SetupAction::Exit(0)));

    let other = step(&o, resolved(&o), SetupEvent::Installed(Some(info(2))));
    let yes = step(&o, other, answer(" YES\n"));
    assert_eq!(told(&yes), ["Blank"]);
    assert!(matches!(yes.action, SetupAction::Download { .. }));

    let o = SetupOptions { yes: true, ..options() };
    for id in [2, 3] {
        let turn = step(&o, resolved(&o), SetupEvent::Installed(Some(info(id))));
        assert_eq!(told(&turn).last().unwrap(), "Blank");
        assert!(matches!(turn.action, SetupAction::Download { .. }));
    }
}

#[test]
fn resolution_failures_are_explained() {
    assert_eq!(
        failure(cmd_setup(&asking("bogus"))),
        "Invalid --release value 'bogus'. Expected 'nightly' or a version like '0.3.5'."
    );
    let o = asking("0.1.7");
    let list = |releases| SetupEvent::Releases(Fetched::Got(releases));
    assert_eq!(
        failure(step(&o, cmd_setup(&o), list(vec![rel("v0.2.0", 1), rel("0.1.3", 2), rel("nightly", 3)]))),
        "No release 0.1.7 found for soteria-tools/soteria.\nAvailable versions: 0.1.3, 0.2.0"
    );
    let o = options();
    assert_eq!(
        failure(step(&o, cmd_setup(&o), list(vec![rel("nightly", 3)]))),
        "No supported stable release found (need 0.1.x – 0.1.x).\nAvailable versions: none\n\
         Use `--release nightly` or `--release X.Y.Z` to pick one explicitly."
    );
    let failed = |fetched| failure(step(&options(), cmd_setup(&options()), SetupEvent::Releases(fetched)));
    assert_eq!(failed(Fetched::Unreachable("dns".to_string())), "Failed to reach GitHub API: dns");
    assert_eq!(
        failed(Fetched::Refused("403 Forbidden".to_string())),
        "GitHub API returned 403 Forbidden listing releases for soteria-tools/soteria."
    );
    assert_eq!(failed(Fetched::Garbled("eof".to_string())), "Failed to parse GitHub releases response: eof");

    let o = SetupOptions { yes: true, ..asking("nightly") };
    let failed = |fetched| failure(step(&o, cmd_setup(&o), SetupEvent::Nightly(fetched)));
    assert_eq!(failed(Fetched::Unreachable("dns".to_string())), "Failed to reach GitHub API: dns");
    assert_eq!(
        failed(Fetched::Refused("404 Not Found".to_string())),
        "GitHub API returned 404 Not Found for release 'nightly'. \
         Make sure the release exists on soteria-tools/soteria."
    );
    assert_eq!(failed(Fetched::Garbled("eof".to_string())), "Failed to parse GitHub release response: eof");
}

#[test]
fn an_exact_release_is_found_by_its_tag() {
    let o = asking("v0.1.3");
    let list = vec![rel("0.1.4", 1), rel("v0.1.3", 2), rel("0.1.3", 3)];
    let turn = step(&o, cmd_setup(&o), SetupEvent::Releases(Fetched::Got(list)));
    assert!(told(&turn).is_empty());
    assert!(matches!(&turn.phase, Phase::Installed { release, label } if release.id == 2 && label == "0.1.3"));
}

#[test]
fn download_failures_are_explained() {
    let o = options();
    let failed = |outcome| {
        let turn = step(&o, resolved(&o), SetupEvent::Installed(None));
        failure(step(&o, turn, SetupEvent::Downloaded(outcome)))
    };
    assert_eq!(failed(DownloadOutcome::Failed("reset".to_string())), "Download failed: reset");
    assert_eq!(failed(DownloadOutcome::Refused("500".to_string())), "Download returned HTTP 500");
    assert_eq!(failed(DownloadOutcome::Broken("eof".to_string())), "Error reading download: eof");

    let o = SetupOptions { arch: "riscv64".to_string(), ..options() };
    let turn = step(&o, resolved(&o), SetupEvent::Installed(None));
    assert!(failure(turn).starts_with("Unsupported platform: linux/riscv64. "));
    let o = SetupOptions { os: "macos".to_string(), arch: "aarch64".to_string(), ..options() };
    let turn = step(&o, resolved(&o), SetupEvent::Installed(None));
    assert!(failure(turn).starts_with("No soteria-rust bundle for 'macos-arm64.zip' found in the '0.1.4' release."));
}

#[test]
fn a_local_build_is_installed_and_recorded() {
    let o = local(false);
    let turn = cmd_setup(&o);
    assert_eq!(told(&turn), ["Blank", "Banner", "Blank"]);
    assert!(matches!(&turn.action, SetupAction::CheckPath(p) if p == "/src"));
    let turn = step(&o, turn, SetupEvent::Exists(true));
    assert!(matches!(&turn.action, SetupAction::CheckPath(p) if p == "/s/soteria-release"));
    let turn = step(&o, turn, SetupEvent::Exists(true));
    assert_eq!(question(&turn), "Soteria is already installed. Update from local path? [y/N]");
    let turn = step(&o, turn, answer("yes"));
    assert_eq!(told(&turn), ["Blank"]);
    assert!(matches!(&turn.action, SetupAction::CheckPath(p) if p == "/src/packages/soteria-rust"));
    let turn = step(&o, turn, SetupEvent::Exists(true));
    assert_eq!(told(&turn), ["Source(\"/src/packages/soteria-rust\")"]);
    assert!(matches!(&turn.action, SetupAction::CopyPackage(p) if p == "/src/packages/soteria-rust"));
    let turn = step(&o, turn, SetupEvent::Done);
    assert_eq!(told(&turn), ["InstalledTo(\"/s/soteria-release\")"]);
    assert!(matches!(&turn.action, SetupAction::ReadGit(p) if p == "/src"));
    let git = SetupEvent::Git { commit: Some(b"abc123\n".to_vec()), date: Some(b"2026-01-01\n".to_vec()) };
    let turn = step(&o, turn, git);
    assert!(matches!(
        &turn.action,
        SetupAction::Record { release_tag, published_at, release_id: 0, name }
            if release_tag == "local:abc123" && published_at == "2026-01-01" && name == "local-abc123"
    ));
    let turn = step(&o, turn, SetupEvent::Done);
    let turn = step(&o, turn, output(Some(0), "", ""));
    assert_eq!(told(&turn), ["ToolchainFound(\"\")", "BuildingPlugins"]);
    let turn = step(&o, turn, SetupEvent::Plugins(Ok(Some(0))));
    assert_eq!(told(&turn)[2], "Success(None)");
}

#[test]
fn a_local_build_needs_consent_and_a_package() {
    let o = local(false);
    assert_eq!(failure(step(&o, cmd_setup(&o), SetupEvent::Exists(false))), "Path '/src' does not exist.");

    let there = step(&o, cmd_setup(&o), SetupEvent::Exists(true));
    let asked = step(&o, there, SetupEvent::Exists(true));
    let no = step(&o, asked, answer("n"));
    assert_eq!(told(&no), ["Aborted"]);
    assert!(matches!(no.action, SetupAction::Exit(0)));

    let there = step(&o, cmd_setup(&o), SetupEvent::Exists(true));
    let fresh = step(&o, there, SetupEvent::Exists(false));
    assert!(told(&fresh).is_empty());
    assert_eq!(
        failure(step(&o, fresh, SetupEvent::Exists(false))),
        "Expected package directory not found at /src/packages/soteria-rust.\n\
         Build the package first (e.g. 'make package-soteria-rust')."
    );

    let o = local(true);
    let there = step(&o, cmd_setup(&o), SetupEvent::Exists(true));
    let replaced = step(&o, there, SetupEvent::Exists(true));
    assert_eq!(told(&replaced), ["Blank"]);
    assert!(matches!(replaced.action, SetupAction::CheckPath(_)));
}

#[test]
fn git_output_is_taken_as_far_as_it_is_text() {
    assert_eq!(git_metadata(Some(b" abc \n".to_vec())), "abc");
    assert_eq!(git_metadata(Some(vec![])), "");
    assert_eq!(git_metadata(Some(vec![0xff])), "unknown");
    assert_eq!(git_metadata(None), "unknown");
}

#[test]
fn tool_failures_are_explained() {
    let o = options();
    let checking = || Phase::Toolchain { name: None };
    let checked = |event| failure(setup_step(&o, checking(), event).unwrap());
    assert_eq!(checked(output(Some(4), "x", " broken\n")), "Toolchain check failed (exit 4): broken");
    assert_eq!(checked(output(None, "x", " \n")), "Toolchain check failed (exit 1)");
    assert_eq!(checked(SetupEvent::Toolchain(Err("gone".to_string()))), "Failed to run obol: gone");
    let building = || Phase::Plugins { name: None };
    let built = |run| failure(setup_step(&o, building(), SetupEvent::Plugins(run)).unwrap());
    assert_eq!(built(Ok(Some(101))), "Building plugins failed (exit 101)");
    assert_eq!(built(Ok(None)), "Building plugins failed (exit 1)");
    assert_eq!(built(Err("gone".to_string())), "Failed to run soteria-rust to build plugins: gone");
}

#[test]
fn answers_mean_yes_in_any_case() {
    for yes in ["y", "Y", "yes", "YES", "yEs", " y\n", "\tyes\r\n"] {
        assert!(prompt_yes_no(yes), "{yes:?}");
    }
    for no in ["", "\n", "n", "no", "ye", "yess", "y y", "ÿ"] {
        assert!(!prompt_yes_no(no), "{no:?}");
    }
}

#[test]
fn setups_wait_for_the_right_event() {
    let o = options();
    assert!(setup_step(&o, Phase::Nightly, SetupEvent::Done).is_none());
    assert!(setup_step(&o, Phase::Listing(None), answer("y")).is_none());
    // Without a local path there is nothing to do with its phases.
    assert!(setup_step(&o, Phase::LocalPath, SetupEvent::Exists(true)).is_none());
    assert!(setup_step(&local(false), Phase::LocalPath, SetupEvent::Exists(true)).is_some());
}
