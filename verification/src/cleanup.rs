//! The `soteria-cleanup` utility: it shows what lies in `~/.soteria`, and removes
//! it if the user agrees.

use vstd::prelude::*;

use crate::common::{law_base_dir, path_join, path_joined};
use crate::size::{show_tree_size, tree_size_shown, Counted, DirTree};
use crate::text::{
    ascii_lower, ends_with, eq_ignore_ascii_case, law_trimmed, opt_text, same_ignoring_case, texts, trim, trimmed,
    white_space,
};

verus! {

/// The one thing to do in a turn.
#[derive(Debug)]
pub enum CleanupAction<S> {
    /// Find out whether a path exists.
    CheckPath(S),
    /// Look at the tree below a path, and at the directories directly in it.
    Inspect(S),
    /// Read a line that the user types.
    ReadLine,
    /// Remove a directory and everything under it.
    Remove(S),
    /// End the program with this exit code.
    Exit(i32),
}

/// What is waited for.
#[derive(Debug)]
pub enum CleanupPhase<S> {
    /// Whether there is such a directory.
    Probing,
    /// What is in it.
    Inspecting,
    /// Whether to remove it. It takes `size` on disk.
    Confirming { size: S },
    /// Its removal.
    Removing { size: S },
    Ended,
}

/// What lies directly in a directory under a name.
pub struct FoundEntry {
    pub name: String,
    pub is_dir: bool,
}

/// What came of the thing to do in a turn.
pub enum CleanupEvent {
    Exists(bool),
    /// The tree, where all of it could be read, and what lies directly in it, where
    /// that could be listed.
    Found { tree: Option<DirTree>, entries: Option<Vec<FoundEntry>> },
    /// The user typed this.
    Answer(String),
    /// The directory was removed, or not for the reason given.
    Removed(Result<(), String>),
}

/// A turn: what is to be printed, what is to be done, and what is waited for.
#[verifier::ext_equal]
pub struct CleanupModel {
    pub phase: CleanupPhase<Seq<char>>,
    pub stdout: Seq<char>,
    pub stderr: Seq<char>,
    pub action: CleanupAction<Seq<char>>,
}

/// A turn of the cleanup.
#[derive(Debug)]
pub struct CleanupTurn {
    pub phase: CleanupPhase<String>,
    pub stdout: String,
    pub stderr: String,
    pub action: CleanupAction<String>,
}

pub open spec fn cleanup_phase(p: CleanupPhase<String>) -> CleanupPhase<Seq<char>> {
    match p {
        CleanupPhase::Probing => CleanupPhase::Probing,
        CleanupPhase::Inspecting => CleanupPhase::Inspecting,
        CleanupPhase::Confirming { size } => CleanupPhase::Confirming { size: size@ },
        CleanupPhase::Removing { size } => CleanupPhase::Removing { size: size@ },
        CleanupPhase::Ended => CleanupPhase::Ended,
    }
}

pub open spec fn cleanup_action(a: CleanupAction<String>) -> CleanupAction<Seq<char>> {
    match a {
        CleanupAction::CheckPath(s) => CleanupAction::CheckPath(s@),
        CleanupAction::Inspect(s) => CleanupAction::Inspect(s@),
        CleanupAction::ReadLine => CleanupAction::ReadLine,
        CleanupAction::Remove(s) => CleanupAction::Remove(s@),
        CleanupAction::Exit(code) => CleanupAction::Exit(code),
    }
}

impl View for CleanupTurn {
    type V = CleanupModel;

    open spec fn view(&self) -> CleanupModel {
        CleanupModel {
            phase: cleanup_phase(self.phase),
            stdout: self.stdout@,
            stderr: self.stderr@,
            action: cleanup_action(self.action),
        }
    }
}

/// Whether what the user typed means yes here: `y` in either letter case, between
/// white space.
pub open spec fn means_y(input: Seq<char>) -> bool {
    same_ignoring_case(trimmed(input), "y"@)
}

/// The directory that is cleaned up.
pub open spec fn cleanup_dir(home: Seq<char>) -> Seq<char> {
    path_joined(home, ".soteria"@)
}

/// The turn with nothing on standard error.
pub open spec fn cleanup_turn(
    phase: CleanupPhase<Seq<char>>,
    stdout: Seq<char>,
    action: CleanupAction<Seq<char>>,
) -> CleanupModel {
    CleanupModel { phase, stdout, stderr: seq![], action }
}

/// The title.
pub open spec fn cleanup_title() -> Seq<char> {
    "Soteria Cleanup Utility\n======================\n\n"@
}

/// The first turn, by the value of `HOME`.
pub open spec fn cleanup_start(home: Option<Seq<char>>) -> CleanupModel {
    match home {
        None => CleanupModel {
            phase: CleanupPhase::Ended,
            stdout: cleanup_title(),
            stderr: "Error: HOME environment variable not set\n"@,
            action: CleanupAction::Exit(1),
        },
        Some(h) => cleanup_turn(
            CleanupPhase::Probing,
            cleanup_title(),
            CleanupAction::CheckPath(cleanup_dir(h)),
        ),
    }
}

/// The list of the directories that were found, one to a line.
pub open spec fn listed(names: Seq<Seq<char>>) -> Seq<char>
    decreases names.len(),
{
    if names.len() == 0 {
        seq![]
    } else {
        listed(names.drop_last()) + "  - "@ + names.last() + "\n"@
    }
}

/// The names of the directories among some entries: each is a version.
pub open spec fn directory_names(entries: Seq<FoundEntry>) -> Seq<Seq<char>>
    decreases entries.len(),
{
    if entries.len() == 0 {
        seq![]
    } else {
        let before = directory_names(entries.drop_last());
        if entries.last().is_dir {
            before.push(entries.last().name@)
        } else {
            before
        }
    }
}

/// What is printed of the installed versions.
pub open spec fn versions_shown(entries: Option<Vec<FoundEntry>>) -> Seq<char> {
    match entries {
        Some(found) => {
            let names = directory_names(found@);
            if names.len() == 0 {
                seq![]
            } else {
                "Installed versions:\n"@ + listed(names) + "\n"@
            }
        },
        None => seq![],
    }
}

/// Whether an event is one that the phase waits for.
pub open spec fn cleanup_awaited<S>(phase: CleanupPhase<S>, event: CleanupEvent) -> bool {
    match phase {
        CleanupPhase::Probing => event is Exists,
        CleanupPhase::Inspecting => event is Found,
        CleanupPhase::Confirming { .. } => event is Answer,
        CleanupPhase::Removing { .. } => event is Removed,
        CleanupPhase::Ended => false,
    }
}

/// The turn that follows when a phase gets an event that it waits for, in a
/// cleanup of the directory `dir`.
pub open spec fn cleanup_next(
    dir: Seq<char>,
    phase: CleanupPhase<Seq<char>>,
    event: CleanupEvent,
) -> CleanupModel {
    match phase {
        CleanupPhase::Probing => if event->Exists_0 {
            cleanup_turn(CleanupPhase::Inspecting, seq![], CleanupAction::Inspect(dir))
        } else {
            cleanup_turn(
                CleanupPhase::Ended,
                "✓ No ~/.soteria directory found. Nothing to clean up.\n"@,
                CleanupAction::Exit(0),
            )
        },
        CleanupPhase::Inspecting => {
            let size = tree_size_shown(event->tree, Counted::AllEntries);
            cleanup_turn(
                CleanupPhase::Confirming { size },
                "Found ~/.soteria directory\nLocation: "@ + dir + "\nSize: "@ + size + "\n\n"@
                    + versions_shown(event->entries)
                    + "Do you want to remove the ~/.soteria directory? [y/N] "@,
                CleanupAction::ReadLine,
            )
        },
        CleanupPhase::Confirming { size } => if means_y(event->Answer_0@) {
            cleanup_turn(
                CleanupPhase::Removing { size },
                "Removing "@ + dir + "... "@,
                CleanupAction::Remove(dir),
            )
        } else {
            cleanup_turn(CleanupPhase::Ended, "Cleanup cancelled.\n"@, CleanupAction::Exit(0))
        },
        CleanupPhase::Removing { size } => match event->Removed_0 {
            Ok(_) => cleanup_turn(
                CleanupPhase::Ended,
                "✓ Done!\n\nCleanup complete. Freed approximately "@ + size + "\n"@,
                CleanupAction::Exit(0),
            ),
            Err(e) => CleanupModel {
                phase: CleanupPhase::Ended,
                stdout: "✗ Failed\n"@,
                stderr: "Error: "@ + e@ + "\n"@,
                action: CleanupAction::Exit(1),
            },
        },
        CleanupPhase::Ended => cleanup_turn(CleanupPhase::Ended, seq![], CleanupAction::Exit(0)),
    }
}

/// The directory that is cleaned up, by the value of `HOME`.
pub fn soteria_dir(home: &str) -> (r: String)
    ensures
        r@ == cleanup_dir(home@),
{
    path_join(home, ".soteria")
}

/// Begin a cleanup, with the value of `HOME`.
pub fn cmd_cleanup(home: Option<&str>) -> (r: CleanupTurn)
    ensures
        r@ == cleanup_start(opt_text(home)),
{
    let stdout = "Soteria Cleanup Utility\n======================\n\n".to_owned();
    match home {
        None => CleanupTurn {
            phase: CleanupPhase::Ended,
            stdout,
            stderr: "Error: HOME environment variable not set\n".to_owned(),
            action: CleanupAction::Exit(1),
        },
        Some(h) => CleanupTurn {
            phase: CleanupPhase::Probing,
            stdout,
            stderr: String::new(),
            action: CleanupAction::CheckPath(soteria_dir(h)),
        },
    }
}

/// The names of the directories among some entries.
fn names_of_directories(entries: &Vec<FoundEntry>) -> (r: Vec<String>)
    ensures
        texts(r@) == directory_names(entries@),
{
    let n: usize = entries.len();
    let mut names: Vec<String> = Vec::new();
    assert(texts(names@) == directory_names(entries@.take(0)));
    for i in 0..n
        invariant
            n == entries@.len(),
            texts(names@) == directory_names(entries@.take(i as int)),
    {
        let ghost next = entries@.take(i as int + 1);
        assert(next.drop_last() == entries@.take(i as int));
        if entries[i].is_dir {
            let ghost before = names@;
            let name = entries[i].name.clone();
            names.push(name);
            assert(texts(names@) == texts(before).push(name@));
        }
    }
    assert(entries@.take(n as int) == entries@);
    names
}

/// What is printed of the installed versions.
fn show_versions(entries: &Option<Vec<FoundEntry>>) -> (r: String)
    ensures
        r@ == versions_shown(*entries),
{
    let names = match entries {
        Some(found) => names_of_directories(found),
        None => {
            return String::new();
        },
    };
    let n: usize = names.len();
    let ghost views = texts(names@);
    assert(views.len() == n);
    if n == 0 {
        return String::new();
    }
    let ghost head = "Installed versions:\n"@;
    let mut out = "Installed versions:\n".to_owned();
    assert(out@ == head + listed(views.take(0)));
    for i in 0..n
        invariant
            n == names@.len(),
            views == texts(names@),
            out@ == head + listed(views.take(i as int)),
    {
        assert(views.take(i as int + 1).drop_last() == views.take(i as int));
        out.append("  - ");
        out.append(names[i].as_str());
        out.append("\n");
        assert(out@ == head + listed(views.take(i as int + 1)));
    }
    assert(views.take(n as int) == views);
    out.append("\n");
    out
}

/// The turn with nothing on standard error.
fn quiet_turn(phase: CleanupPhase<String>, stdout: String, action: CleanupAction<String>) -> (r:
    CleanupTurn)
    ensures
        r@ == cleanup_turn(cleanup_phase(phase), stdout@, cleanup_action(action)),
{
    CleanupTurn { phase, stdout, stderr: String::new(), action }
}

/// Go on with a cleanup of the directory `dir`: the turn that follows when `phase`
/// gets `event`, or `None` where that is not what the phase waits for.
pub fn cleanup_step(dir: &str, phase: CleanupPhase<String>, event: CleanupEvent) -> (r: Option<
    CleanupTurn,
>)
    ensures
        match r {
            Some(t) => cleanup_awaited(phase, event) && t@ == cleanup_next(
                dir@,
                cleanup_phase(phase),
                event,
            ),
            None => !cleanup_awaited(phase, event),
        },
{
    match (phase, event) {
        (CleanupPhase::Probing, CleanupEvent::Exists(exists)) => Some(
            if exists {
                quiet_turn(
                    CleanupPhase::Inspecting,
                    String::new(),
                    CleanupAction::Inspect(dir.to_owned()),
                )
            } else {
                quiet_turn(
                    CleanupPhase::Ended,
                    "✓ No ~/.soteria directory found. Nothing to clean up.\n".to_owned(),
                    CleanupAction::Exit(0),
                )
            },
        ),
        (CleanupPhase::Inspecting, CleanupEvent::Found { tree, entries }) => {
            let size = show_tree_size(&tree, Counted::AllEntries);
            let mut out = "Found ~/.soteria directory\nLocation: ".to_owned();
            out.append(dir);
            out.append("\nSize: ");
            out.append(size.as_str());
            out.append("\n\n");
            out.append(show_versions(&entries).as_str());
            out.append("Do you want to remove the ~/.soteria directory? [y/N] ");
            Some(quiet_turn(CleanupPhase::Confirming { size }, out, CleanupAction::ReadLine))
        },
        (CleanupPhase::Confirming { size }, CleanupEvent::Answer(answer)) => {
            if eq_ignore_ascii_case(trim(answer.as_str()), "y") {
                let mut out = "Removing ".to_owned();
                out.append(dir);
                out.append("... ");
                return Some(
                    quiet_turn(
                        CleanupPhase::Removing { size },
                        out,
                        CleanupAction::Remove(dir.to_owned()),
                    ),
                );
            }
            Some(
                quiet_turn(
                    CleanupPhase::Ended,
                    "Cleanup cancelled.\n".to_owned(),
                    CleanupAction::Exit(0),
                ),
            )
        },
        (CleanupPhase::Removing { size }, CleanupEvent::Removed(outcome)) => match outcome {
            Ok(_) => {
                let mut out = "✓ Done!\n\nCleanup complete. Freed approximately ".to_owned();
                out.append(size.as_str());
                out.append("\n");
                Some(quiet_turn(CleanupPhase::Ended, out, CleanupAction::Exit(0)))
            },
            Err(e) => {
                let mut stderr = "Error: ".to_owned();
                stderr.append(e.as_str());
                stderr.append("\n");
                Some(
                    CleanupTurn {
                        phase: CleanupPhase::Ended,
                        stdout: "✗ Failed\n".to_owned(),
                        stderr,
                        action: CleanupAction::Exit(1),
                    },
                )
            },
        },
        _ => None,
    }
}

// ── whole cleanups ────────────────────────────────────────────────────────────

/// The turn that a cleanup of the home directory `home` has come to after some
/// events.
pub open spec fn cleanup_after(home: Seq<char>, events: Seq<CleanupEvent>) -> CleanupModel
    decreases events.len(),
{
    if events.len() == 0 {
        cleanup_start(Some(home))
    } else {
        cleanup_next(
            cleanup_dir(home),
            cleanup_after(home, events.drop_last()).phase,
            events.last(),
        )
    }
}

/// Whether each of the events was waited for when it came.
pub open spec fn cleanup_trace(home: Seq<char>, events: Seq<CleanupEvent>) -> bool
    decreases events.len(),
{
    events.len() == 0 || {
        &&& cleanup_trace(home, events.drop_last())
        &&& cleanup_awaited(cleanup_after(home, events.drop_last()).phase, events.last())
    }
}

/// Before anything is deleted, the user was shown where it lies, how large it is
/// and what is in it, was asked, and agreed. Nothing is deleted but that.
pub proof fn law_deleted_only_if_agreed(home: Seq<char>, events: Seq<CleanupEvent>)
    requires
        cleanup_trace(home, events),
        cleanup_after(home, events).action is Remove,
    ensures
        events.len() == 3,
        cleanup_after(home, events).action == CleanupAction::Remove(cleanup_dir(home)),
        cleanup_after(home, events.take(2)).stdout == "Found ~/.soteria directory\nLocation: "@
            + cleanup_dir(home) + "\nSize: "@ + tree_size_shown(events[1]->tree, Counted::AllEntries) + "\n\n"@
            + versions_shown(events[1]->entries)
            + "Do you want to remove the ~/.soteria directory? [y/N] "@,
        cleanup_after(home, events.take(2)).action is ReadLine,
        events[2] is Answer,
        means_y(events[2]->Answer_0@),
{
    reveal_with_fuel(cleanup_trace, 5);
    reveal_with_fuel(cleanup_after, 5);
    assert(events.take(2) == events.drop_last());
}

/// What means yes here is one letter, in either case, between white space.
pub proof fn law_what_means_y(front: Seq<char>, s: Seq<char>, back: Seq<char>)
    requires
        forall|i: int| 0 <= i < front.len() ==> white_space(#[trigger] front[i]),
        forall|i: int| 0 <= i < back.len() ==> white_space(#[trigger] back[i]),
        s.len() > 0 ==> !white_space(s[0]) && !white_space(s.last()),
    ensures
        means_y(front + s + back) <==> s == seq!['y'] || s == seq!['Y'],
{
    law_trimmed(front, s, back);
    reveal_strlit("y");
    let y = "y"@;
    assert(y.len() == 1 && y[0] == 'y');
    if same_ignoring_case(s, y) {
        assert(ascii_lower(s[0]) == ascii_lower(y[0]));
        assert(s == seq![s[0]]);
    }
}

/// What is shown as installed are the directories, every one of them and in order, and
/// nothing that is no directory.
pub proof fn law_directories_are_listed(
    a: Seq<FoundEntry>,
    entry: FoundEntry,
    b: Seq<FoundEntry>,
)
    ensures
        directory_names(a + seq![entry] + b) == (if entry.is_dir {
            directory_names(a) + seq![entry.name@] + directory_names(b)
        } else {
            directory_names(a) + directory_names(b)
        }),
        directory_names(seq![]).len() == 0,
    decreases b.len(),
{
    let all = a + seq![entry] + b;
    if b.len() == 0 {
        assert(all.drop_last() == a);
        assert(all.last() == entry);
        assert(directory_names(b) == Seq::<Seq<char>>::empty());
    } else {
        law_directories_are_listed(a, entry, b.drop_last());
        assert(all.drop_last() == a + seq![entry] + b.drop_last());
        assert(all.last() == b.last());
    }
    assert(directory_names(all) =~= if entry.is_dir {
        directory_names(a) + seq![entry.name@] + directory_names(b)
    } else {
        directory_names(a) + directory_names(b)
    });
}

/// Each name is listed on a line of its own, in order.
pub proof fn law_one_line_each(a: Seq<Seq<char>>, name: Seq<char>, b: Seq<Seq<char>>)
    ensures
        listed(a + seq![name] + b) == listed(a) + ("  - "@ + name + "\n"@) + listed(b),
        listed(seq![]).len() == 0,
    decreases b.len(),
{
    let all = a + seq![name] + b;
    if b.len() == 0 {
        assert(all.drop_last() == a);
        assert(all.last() == name);
        assert(listed(b) == Seq::<char>::empty());
    } else {
        law_one_line_each(a, name, b.drop_last());
        assert(all.drop_last() == a + seq![name] + b.drop_last());
        assert(all.last() == b.last());
    }
    assert(listed(all) =~= listed(a) + ("  - "@ + name + "\n"@) + listed(b));
}

/// The versions are shown where there are any, and nothing is shown of them where there
/// are none or they could not be listed.
pub proof fn law_versions_shown(found: Vec<FoundEntry>)
    ensures
        versions_shown(None).len() == 0,
        directory_names(found@).len() == 0 ==> versions_shown(Some(found)).len() == 0,
        directory_names(found@).len() > 0 ==> versions_shown(Some(found))
            == "Installed versions:\n"@ + listed(directory_names(found@)) + "\n"@,
{
}

/// How a cleanup goes: without a home directory it fails; without the directory there is
/// nothing to do; a user who agrees has it removed, and one who does not keeps it; and the
/// exit code tells whether the removal worked.
pub proof fn law_course_of_a_cleanup(
    home: Seq<char>,
    found: CleanupEvent,
    answer: CleanupEvent,
    reason: String,
)
    requires
        found is Found,
        answer is Answer,
    ensures
        ({
            let yes = seq![CleanupEvent::Exists(true), found, answer];
            let done = cleanup_after(home, yes.push(CleanupEvent::Removed(Ok(()))));
            let failed = cleanup_after(home, yes.push(CleanupEvent::Removed(Err(reason))));
            &&& cleanup_start(None).action == CleanupAction::<Seq<char>>::Exit(1)
            &&& cleanup_after(home, seq![CleanupEvent::Exists(false)]).action == CleanupAction::<
                Seq<char>,
            >::Exit(0)
            &&& cleanup_trace(home, yes)
            &&& means_y(answer->Answer_0@) ==> cleanup_after(home, yes).action
                == CleanupAction::Remove(cleanup_dir(home)) && done.action == CleanupAction::<
                Seq<char>,
            >::Exit(0) && failed.action == CleanupAction::<Seq<char>>::Exit(1) && failed.stderr
                == "Error: "@ + reason@ + "\n"@ && done.stderr.len() == 0
            &&& !means_y(answer->Answer_0@) ==> cleanup_after(home, yes).action == CleanupAction::<
                Seq<char>,
            >::Exit(0) && cleanup_after(home, yes).phase is Ended
        }),
{
    reveal_with_fuel(cleanup_after, 6);
    reveal_with_fuel(cleanup_trace, 6);
    let none = Seq::<CleanupEvent>::empty();
    let first = seq![CleanupEvent::Exists(true)];
    let second = seq![CleanupEvent::Exists(true), found];
    let yes = seq![CleanupEvent::Exists(true), found, answer];
    assert(seq![CleanupEvent::Exists(false)].drop_last() == none);
    assert(first.drop_last() == none);
    assert(second.drop_last() == first);
    assert(yes.drop_last() == second);
    assert(yes.push(CleanupEvent::Removed(Ok(()))).drop_last() == yes);
    assert(yes.push(CleanupEvent::Removed(Err(reason))).drop_last() == yes);
}

/// What was shown as the size is what is said to be freed.
pub proof fn law_size_shown_is_freed(home: Seq<char>, events: Seq<CleanupEvent>)
    requires
        cleanup_trace(home, events),
        events.len() == 4,
        events[3]->Removed_0 is Ok,
    ensures
        ends_with(
            cleanup_after(home, events).stdout,
            "Freed approximately "@ + tree_size_shown(events[1]->tree, Counted::AllEntries) + "\n"@,
        ),
{
    reveal_with_fuel(cleanup_trace, 5);
    reveal_with_fuel(cleanup_after, 5);
    reveal_strlit("✓ Done!\n\nCleanup complete. Freed approximately ");
    reveal_strlit("Freed approximately ");
    let size = tree_size_shown(events[1]->tree, Counted::AllEntries);
    let shown = cleanup_after(home, events).stdout;
    let end = "Freed approximately "@ + size + "\n"@;
    assert(shown == "✓ Done!\n\nCleanup complete. Freed approximately "@ + size + "\n"@);
    assert(shown.skip(shown.len() - end.len()) == end);
}

/// The directory is `.soteria` in the home directory.
pub proof fn law_cleanup_dir(home: Seq<char>)
    requires
        home.len() > 0,
        home.last() != '/',
    ensures
        cleanup_dir(home) == home + "/.soteria"@,
{
    law_base_dir(home, None, home);
}

/// Each step waits for its own kind of answer; the last one waits for nothing.
pub proof fn law_cleanup_waits_for(home: Seq<char>, events: Seq<CleanupEvent>, event: CleanupEvent)
    requires
        cleanup_trace(home, events),
    ensures
        cleanup_awaited(cleanup_after(home, events).phase, event) <==> match cleanup_after(
            home,
            events,
        ).action {
            CleanupAction::CheckPath(_) => event is Exists,
            CleanupAction::Inspect(_) => event is Found,
            CleanupAction::ReadLine => event is Answer,
            CleanupAction::Remove(_) => event is Removed,
            CleanupAction::Exit(_) => false,
        },
{
}

/// What is printed in each turn after the user was asked, and where there is nothing to
/// do.
pub proof fn law_what_a_cleanup_prints(
    dir: Seq<char>,
    size: Seq<char>,
    answer: CleanupEvent,
)
    requires
        answer is Answer,
    ensures
        ({
            let next = cleanup_next(dir, CleanupPhase::Confirming { size }, answer);
            let missing = cleanup_next(dir, CleanupPhase::Probing, CleanupEvent::Exists(false));
            let there = cleanup_next(dir, CleanupPhase::Probing, CleanupEvent::Exists(true));
            &&& means_y(answer->Answer_0@) ==> next.stdout == "Removing "@ + dir + "... "@
            &&& !means_y(answer->Answer_0@) ==> next.stdout == "Cleanup cancelled.\n"@
            &&& next.stderr.len() == 0
            &&& missing.stdout == "✓ No ~/.soteria directory found. Nothing to clean up.\n"@
            &&& missing.stderr.len() == 0
            &&& there.stdout.len() == 0 && there.stderr.len() == 0
            &&& there.action == CleanupAction::Inspect(dir)
        }),
{
}

} // verus!
