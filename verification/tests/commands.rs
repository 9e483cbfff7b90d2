use cargo_soteria::cleanup::{cleanup_step, cmd_cleanup, soteria_dir, CleanupAction, CleanupEvent, CleanupPhase, FoundEntry};
use cargo_soteria::cli::{dispatch, effective_jobs, Command};
use cargo_soteria::install::{
    install_action, install_package, install_step, InstallAction, InstallEvent, InstallPhase, InstallSource, Place,
};
use cargo_soteria::size::DirTree;
use cargo_soteria::staging::{
    bin_dir, copy_dir_all, join_entry, make_bins_executable, BinEntry, CopyStep, SourceEntry, SourceTree,
};
use cargo_soteria::unsetup::{
    cmd_unsetup, unsetup_step, UnsetupAction, UnsetupEvent, UnsetupNotice, UnsetupPhase, UnsetupTurn,
};

fn owned(args: &[&str]) -> Vec<String> {
    args.iter().map(|s| s.to_string()).collect()
}

fn dispatched(args: &[&str]) -> Command {
    let direct = dispatch(&owned(&[&["cargo-soteria"], args].concat()));
    let cargo = dispatch(&owned(&[&["cargo-soteria", "soteria"], args].concat()));
    assert_eq!(direct, cargo);
    direct
}

#[test]
fn commands_are_dispatched() {
    assert_eq!(dispatched(&[]), Command::Run(vec![]));
    assert_eq!(dispatched(&["--kani", "setup"]), Command::Run(owned(&["--kani", "setup"])));
    assert_eq!(dispatched(&["setup", "--yes"]), Command::Setup(owned(&["--yes"])));
    assert_eq!(dispatched(&["unsetup", "x"]), Command::Unsetup);
    assert_eq!(dispatched(&["nextest", "run", "--help"]), Command::Nextest(owned(&["run", "--help"])));
    assert_eq!(
        dispatched(&["__nextest-runner", "bin", "-h"]),
        Command::NextestRunner(owned(&["bin", "-h"]))
    );
}

#[test]
fn help_is_found_anywhere() {
    assert_eq!(dispatched(&["-h"]), Command::Help);
    assert_eq!(dispatched(&["setup", "--help"]), Command::Help);
    assert_eq!(dispatched(&["unsetup", "-h"]), Command::Help);
    assert_eq!(dispatched(&["--kani", "--", "--help"]), Command::Help);
    assert_eq!(dispatched(&["--helpful"]), Command::Run(owned(&["--helpful"])));
    // The word that cargo inserts is dropped once.
    assert_eq!(dispatch(&owned(&["p", "soteria", "soteria"])), Command::Run(owned(&["soteria"])));
}

#[test]
fn at_least_one_job_runs() {
    assert_eq!(effective_jobs(Some(0), 64), 1);
    assert_eq!(effective_jobs(Some(1), 64), 1);
    assert_eq!(effective_jobs(Some(7), 1), 7);
    assert_eq!(effective_jobs(None, 0), 1);
    assert_eq!(effective_jobs(None, 3), 1);
    assert_eq!(effective_jobs(None, 8), 2);
    assert_eq!(effective_jobs(None, 15), 3);
}

/// Play an installation to its end.
fn install(source: InstallSource, mut answer: impl FnMut(InstallAction) -> InstallEvent) -> (Vec<InstallAction>, InstallPhase) {
    let (mut phase, mut action) = install_package(source);
    let mut done = vec![];
    loop {
        done.push(action);
        if matches!(action, InstallAction::Finish | InstallAction::Panic) {
            return (done, phase);
        }
        (phase, action) = install_step(source, phase, answer(action)).unwrap();
    }
}

#[test]
fn an_archive_replaces_the_old_installation() {
    let (done, phase) = install(InstallSource::Archive, |action| match action {
        InstallAction::Probe(_) => InstallEvent::Exists(true),
        _ => InstallEvent::Done,
    });
    assert_eq!(
        done,
        [
            InstallAction::MakeDirs(Place::Parent),
            InstallAction::Probe(Place::Staging),
            InstallAction::Clear(Place::Staging),
            InstallAction::MakeDirs(Place::Staging),
            InstallAction::Populate,
            InstallAction::MarkExecutable,
            InstallAction::Probe(Place::Package),
            InstallAction::Clear(Place::Aside),
            InstallAction::SetAside,
            InstallAction::Move,
            InstallAction::Clear(Place::Aside),
            InstallAction::Finish,
        ]
    );
    assert_eq!(phase, InstallPhase::Finished);
}

#[test]
fn a_local_build_is_copied_into_place() {
    let (done, _) = install(InstallSource::Local, |action| match action {
        InstallAction::Probe(_) => InstallEvent::Exists(false),
        _ => InstallEvent::Done,
    });
    assert_eq!(
        done,
        [
            InstallAction::Probe(Place::Staging),
            InstallAction::Populate,
            InstallAction::MarkExecutable,
            InstallAction::Probe(Place::Package),
            InstallAction::Move,
            // An installation that was stranded earlier may lie there.
            InstallAction::Clear(Place::Aside),
            InstallAction::Finish,
        ]
    );
}

#[test]
fn what_cannot_be_cleared_away_does_not_stop_an_installation() {
    let (done, phase) = install(InstallSource::Archive, |action| match action {
        InstallAction::Probe(_) => InstallEvent::Exists(true),
        InstallAction::Clear(_) => InstallEvent::Failed,
        _ => InstallEvent::Done,
    });
    assert_eq!(done.iter().filter(|a| matches!(a, InstallAction::Clear(_))).count(), 3);
    assert_eq!(done.last(), Some(&InstallAction::Finish));
    assert_eq!(phase, InstallPhase::Finished);
}

#[test]
fn an_unreadable_archive_leaves_the_old_installation() {
    let (done, phase) = install(InstallSource::Archive, |action| match action {
        InstallAction::Probe(_) => InstallEvent::Exists(true),
        InstallAction::Populate => InstallEvent::Failed,
        _ => InstallEvent::Done,
    });
    assert!(!done.contains(&InstallAction::SetAside));
    assert_eq!(done[done.len() - 2..], [InstallAction::Populate, InstallAction::Panic]);
    assert_eq!(phase, InstallPhase::Broken);
}

#[test]
fn a_failed_move_brings_the_old_installation_back() {
    let (done, phase) = install(InstallSource::Archive, |action| match action {
        InstallAction::Probe(_) => InstallEvent::Exists(true),
        InstallAction::Move => InstallEvent::MoveFailed,
        _ => InstallEvent::Done,
    });
    assert_eq!(
        done[done.len() - 4..],
        [InstallAction::SetAside, InstallAction::Move, InstallAction::Restore, InstallAction::Panic]
    );
    assert_eq!(phase, InstallPhase::Broken);

    // An installation that cannot be set aside stays where it is.
    let (done, phase) = install(InstallSource::Local, |action| match action {
        InstallAction::Probe(_) => InstallEvent::Exists(true),
        InstallAction::SetAside => InstallEvent::MoveFailed,
        _ => InstallEvent::Done,
    });
    assert!(!done.contains(&InstallAction::Move));
    assert_eq!(phase, InstallPhase::Broken);
}

#[test]
fn an_installation_that_cannot_be_brought_back_is_kept_aside() {
    for superseded in [false, true] {
        let mut moved = false;
        let (done, phase) = install(InstallSource::Local, |action| match action {
            InstallAction::Probe(_) => InstallEvent::Exists(!moved || superseded),
            InstallAction::Move | InstallAction::Restore => {
                moved = true;
                InstallEvent::MoveFailed
            }
            _ => InstallEvent::Done,
        });
        let aside = done.iter().position(|a| *a == InstallAction::SetAside).unwrap();
        assert!(!done[aside..].contains(&InstallAction::Clear(Place::Aside)));
        if superseded {
            assert_eq!(done[done.len() - 2..], [InstallAction::Clear(Place::Staging), InstallAction::Finish]);
            assert_eq!(phase, InstallPhase::Superseded);
        } else {
            assert_eq!(done.last(), Some(&InstallAction::Panic));
            assert_eq!(phase, InstallPhase::Stranded);
        }
    }
}

#[test]
fn a_failed_move_is_fatal_only_without_an_installation() {
    for there in [true, false] {
        let mut probes = 0;
        let (done, phase) = install(InstallSource::Local, |action| match action {
            InstallAction::Probe(_) => {
                probes += 1;
                InstallEvent::Exists(probes == 3 && there)
            }
            InstallAction::Move => InstallEvent::MoveFailed,
            _ => InstallEvent::Done,
        });
        if there {
            assert_eq!(done[done.len() - 2..], [InstallAction::Clear(Place::Staging), InstallAction::Finish]);
            assert_eq!(phase, InstallPhase::Finished);
        } else {
            assert_eq!(done.last(), Some(&InstallAction::Panic));
            assert_eq!(phase, InstallPhase::Broken);
        }
    }
}

#[test]
fn installations_wait_for_the_right_event() {
    let step = |phase, event| install_step(InstallSource::Local, phase, event);
    assert_eq!(step(InstallPhase::Moving, InstallEvent::Exists(true)), None);
    assert_eq!(step(InstallPhase::Populating, InstallEvent::MoveFailed), None);
    assert_eq!(step(InstallPhase::Moving, InstallEvent::Failed), None);
    assert_eq!(step(InstallPhase::ProbingOld, InstallEvent::Done), None);
    for ended in [InstallPhase::Finished, InstallPhase::Superseded, InstallPhase::Broken, InstallPhase::Stranded] {
        assert_eq!(step(ended, InstallEvent::Done), None);
    }
    for failing in [InstallPhase::MakingParent, InstallPhase::MakingStaging, InstallPhase::MarkingExecutable] {
        assert_eq!(step(failing, InstallEvent::Failed), Some((InstallPhase::Broken, InstallAction::Panic)));
    }
    assert_eq!(install_action(InstallPhase::Restoring), InstallAction::Restore);
}

fn entry(name: &[u8], tree: SourceTree) -> SourceEntry {
    SourceEntry { name: name.to_vec(), tree }
}

#[test]
fn a_copy_mirrors_its_source() {
    let tree = SourceTree::Dir(vec![
        entry(b"bin", SourceTree::Dir(vec![entry(b"z3", SourceTree::File)])),
        // A name that is no text.
        entry(b"\xff", SourceTree::File),
        entry(b"empty", SourceTree::Dir(vec![])),
    ]);
    let made = |path: &[u8]| CopyStep::MakeDirs(path.to_vec());
    let copied = |from: &[u8], to: &[u8]| CopyStep::CopyFile { from: from.to_vec(), to: to.to_vec() };
    assert_eq!(
        copy_dir_all(&tree, b"/src", b"/dst/"),
        [
            made(b"/dst/"),
            made(b"/dst/bin"),
            copied(b"/src/bin/z3", b"/dst/bin/z3"),
            copied(b"/src/\xff", b"/dst/\xff"),
            made(b"/dst/empty"),
        ]
    );
    assert_eq!(join_entry(b"", b"x"), b"x");
}

#[test]
fn only_files_are_marked_as_executable() {
    let bin = |name: &[u8], is_file| BinEntry { name: name.to_vec(), is_file };
    let entries = [bin(b"z3", true), bin(b"sub", false), bin(b"\xff", true)];
    assert_eq!(bin_dir("/d"), "/d/bin");
    assert_eq!(make_bins_executable(b"/d/bin", &entries), [b"/d/bin/z3".to_vec(), b"/d/bin/\xff".to_vec()]);
    assert!(make_bins_executable(b"/d/bin", &[]).is_empty());
}

fn step(turn: UnsetupTurn, event: UnsetupEvent) -> UnsetupTurn {
    unsetup_step("/s", turn.phase, event).unwrap()
}

fn inspected(version: Option<&str>) -> UnsetupTurn {
    let turn = cmd_unsetup("/s");
    assert!(turn.notices.is_empty());
    assert!(matches!(&turn.action, UnsetupAction::CheckPath(p) if p == "/s"));
    let turn = step(turn, UnsetupEvent::Exists(true));
    assert!(turn.notices.is_empty());
    assert!(matches!(&turn.action, UnsetupAction::Inspect(p) if p == "/s"));
    let tree = DirTree::Dir(vec![DirTree::File(1536)]);
    step(turn, UnsetupEvent::Found { tree: Some(tree), version: version.map(|v| v.to_string()) })
}

#[test]
fn unsetup_shows_what_it_found_and_asks() {
    let turn = inspected(Some("0.1.4\n"));
    assert!(matches!(
        &turn.notices[..],
        [
            UnsetupNotice::Blank,
            UnsetupNotice::FoundAt(base),
            UnsetupNotice::SizeOnDisk(size),
            UnsetupNotice::InstalledRelease(name),
            UnsetupNotice::Blank,
        ] if base == "/s" && size == "1.50 KB" && name == "0.1.4"
    ));
    assert!(matches!(&turn.action, UnsetupAction::Ask(q) if q == "Remove /s and everything under it? [y/N]"));
    // Without a recorded name that line is left out.
    for version in [None, Some(" \n")] {
        assert!(matches!(
            &inspected(version).notices[..],
            [UnsetupNotice::Blank, UnsetupNotice::FoundAt(_), UnsetupNotice::SizeOnDisk(_), UnsetupNotice::Blank]
        ));
    }
}

#[test]
fn unsetup_removes_only_on_yes() {
    for answer in ["", "n", "no", "yep", "y e s", "ja"] {
        let turn = step(inspected(None), UnsetupEvent::Answer(answer.to_string()));
        assert!(matches!(&turn.notices[..], [UnsetupNotice::Cancelled]), "{answer}");
        assert!(matches!(turn.action, UnsetupAction::Finish));
        assert!(matches!(turn.phase, UnsetupPhase::Ended));
    }
    for answer in ["y", "Y\n", " yes \r\n", "YeS"] {
        let turn = step(inspected(None), UnsetupEvent::Answer(answer.to_string()));
        assert!(turn.notices.is_empty());
        assert!(matches!(&turn.action, UnsetupAction::Remove(p) if p == "/s"), "{answer}");
        let gone = step(turn, UnsetupEvent::Removed(Ok(())));
        assert!(matches!(
            &gone.notices[..],
            [UnsetupNotice::Blank, UnsetupNotice::Uninstalled { freed, base }] if freed == "1.50 KB" && base == "/s"
        ));
        assert!(matches!(gone.action, UnsetupAction::Finish));
    }
}

#[test]
fn unsetup_reports_what_stops_it() {
    let turn = step(cmd_unsetup("/s"), UnsetupEvent::Exists(false));
    assert!(matches!(&turn.notices[..], [UnsetupNotice::NotSetUp]));
    assert!(matches!(turn.action, UnsetupAction::Finish));
    let turn = step(inspected(None), UnsetupEvent::Answer("y".to_string()));
    let turn = step(turn, UnsetupEvent::Removed(Err("denied".to_string())));
    assert!(matches!(&turn.action, UnsetupAction::Fail(m) if m == "Failed to remove '/s': denied"));
    assert!(unsetup_step("/s", UnsetupPhase::Probing, UnsetupEvent::Removed(Ok(()))).is_none());
    assert!(unsetup_step("/s", UnsetupPhase::Ended, UnsetupEvent::Exists(true)).is_none());
}

fn found(entries: Option<&[(&str, bool)]>) -> CleanupEvent {
    let entry = |(name, is_dir): &(&str, bool)| FoundEntry { name: name.to_string(), is_dir: *is_dir };
    CleanupEvent::Found { tree: None, entries: entries.map(|found| found.iter().map(entry).collect()) }
}

#[test]
fn cleanup_shows_what_it_would_remove() {
    let start = cmd_cleanup(Some("/home/me"));
    assert_eq!(start.stdout, "Soteria Cleanup Utility\n======================\n\n");
    let dir = soteria_dir("/home/me");
    assert!(matches!(&start.action, CleanupAction::CheckPath(p) if *p == dir));
    let turn = cleanup_step(&dir, start.phase, CleanupEvent::Exists(true)).unwrap();
    assert!(matches!(&turn.action, CleanupAction::Inspect(p) if p == "/home/me/.soteria"));
    let turn = cleanup_step(&dir, turn.phase, found(Some(&[("soteria-release", true), ("notes.txt", false), ("old", true)]))).unwrap();
    assert_eq!(
        turn.stdout,
        "Found ~/.soteria directory\nLocation: /home/me/.soteria\nSize: unknown\n\n\
         Installed versions:\n  - soteria-release\n  - old\n\n\
         Do you want to remove the ~/.soteria directory? [y/N] "
    );
    assert!(matches!(turn.action, CleanupAction::ReadLine));
    for none in [None, Some(&[][..]), Some(&[("notes.txt", false)])] {
        let turn = cleanup_step(&dir, CleanupPhase::Inspecting, found(none)).unwrap();
        assert_eq!(
            turn.stdout,
            "Found ~/.soteria directory\nLocation: /home/me/.soteria\nSize: unknown\n\n\
             Do you want to remove the ~/.soteria directory? [y/N] "
        );
    }
}

#[test]
fn links_count_for_the_cleanup_and_not_for_unsetup() {
    let tree = || Some(DirTree::Dir(vec![DirTree::File(5), DirTree::Other(3)]));
    let event = CleanupEvent::Found { tree: tree(), entries: None };
    let turn = cleanup_step("/d", CleanupPhase::Inspecting, event).unwrap();
    assert!(turn.stdout.contains("Size: 8 bytes\n"));
    let event = UnsetupEvent::Found { tree: tree(), version: None };
    let turn = unsetup_step("/d", UnsetupPhase::Inspecting, event).unwrap();
    assert!(matches!(&turn.phase, UnsetupPhase::Confirming { size } if size == "5 bytes"));
}

#[test]
fn cleanup_removes_only_on_y() {
    let asking = || CleanupPhase::Confirming { size: "7 bytes".to_string() };
    for answer in ["", "n", "yes", "yy"] {
        let turn = cleanup_step("/d", asking(), CleanupEvent::Answer(answer.to_string())).unwrap();
        assert_eq!(turn.stdout, "Cleanup cancelled.\n", "{answer}");
        assert!(matches!(turn.action, CleanupAction::Exit(0)));
    }
    for answer in ["y\n", " Y "] {
        let turn = cleanup_step("/d", asking(), CleanupEvent::Answer(answer.to_string())).unwrap();
        assert_eq!(turn.stdout, "Removing /d... ");
        assert!(matches!(&turn.action, CleanupAction::Remove(p) if p == "/d"));
        let gone = cleanup_step("/d", turn.phase, CleanupEvent::Removed(Ok(()))).unwrap();
        assert_eq!(gone.stdout, "✓ Done!\n\nCleanup complete. Freed approximately 7 bytes\n");
        assert!(matches!(gone.action, CleanupAction::Exit(0)));
    }
}

#[test]
fn cleanup_reports_what_stops_it() {
    let start = cmd_cleanup(None);
    assert_eq!(start.stderr, "Error: HOME environment variable not set\n");
    assert!(matches!(start.action, CleanupAction::Exit(1)));
    let turn = cleanup_step("/d", CleanupPhase::Probing, CleanupEvent::Exists(false)).unwrap();
    assert_eq!(turn.stdout, "✓ No ~/.soteria directory found. Nothing to clean up.\n");
    assert!(matches!(turn.action, CleanupAction::Exit(0)));
    let removing = CleanupPhase::Removing { size: String::new() };
    let turn = cleanup_step("/d", removing, CleanupEvent::Removed(Err("denied".to_string()))).unwrap();
    assert_eq!(turn.stdout, "✗ Failed\n");
    assert_eq!(turn.stderr, "Error: denied\n");
    assert!(matches!(turn.action, CleanupAction::Exit(1)));
    assert!(cleanup_step("/d", CleanupPhase::Probing, CleanupEvent::Removed(Ok(()))).is_none());
}
