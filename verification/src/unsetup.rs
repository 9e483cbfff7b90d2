//! The `unsetup` subcommand: showing what is installed, and removing it if the
//! user agrees.

use vstd::prelude::*;

use crate::release::{read_version_name, recorded_name};
use crate::setup::{means_yes, prompt_yes_no};
use crate::size::{show_tree_size, tree_size_shown, Counted, DirTree};
use crate::text::{ends_with, opt_string, trimmed};

verus! {

/// Something to show to the user.
#[derive(Debug)]
pub enum UnsetupNotice<S> {
    Blank,
    NotSetUp,
    FoundAt(S),
    SizeOnDisk(S),
    InstalledRelease(S),
    Cancelled,
    Uninstalled { freed: S, base: S },
}

/// The one thing to do in a turn.
#[derive(Debug)]
pub enum UnsetupAction<S> {
    /// Find out whether a path exists.
    CheckPath(S),
    /// Look at the install tree below a path, and at the name recorded in it.
    Inspect(S),
    /// Ask the user a question.
    Ask(S),
    /// Remove a directory and everything under it.
    Remove(S),
    /// End the program with this error message.
    Fail(S),
    /// There is nothing more to do.
    Finish,
}

/// What is waited for.
#[derive(Debug)]
pub enum UnsetupPhase<S> {
    /// Whether there is an install tree.
    Probing,
    /// What is in it.
    Inspecting,
    /// Whether to remove it. It takes `size` on disk.
    Confirming { size: S },
    /// Its removal.
    Removing { size: S },
    Ended,
}

/// What came of the thing to do in a turn.
pub enum UnsetupEvent {
    Exists(bool),
    /// The install tree, where all of it could be read, and the contents of its
    /// `VERSION` file, where there is one.
    Found { tree: Option<DirTree>, version: Option<String> },
    /// The user typed this.
    Answer(String),
    /// The directory was removed, or not for the reason given.
    Removed(Result<(), String>),
}

/// A turn: what is to be shown, what is to be done, and what is waited for.
#[verifier::ext_equal]
pub struct UnsetupModel {
    pub phase: UnsetupPhase<Seq<char>>,
    pub notices: Seq<UnsetupNotice<Seq<char>>>,
    pub action: UnsetupAction<Seq<char>>,
}

/// A turn of the removal.
pub struct UnsetupTurn {
    pub phase: UnsetupPhase<String>,
    pub notices: Vec<UnsetupNotice<String>>,
    pub action: UnsetupAction<String>,
}

pub open spec fn unsetup_notice(n: UnsetupNotice<String>) -> UnsetupNotice<Seq<char>> {
    match n {
        UnsetupNotice::Blank => UnsetupNotice::Blank,
        UnsetupNotice::NotSetUp => UnsetupNotice::NotSetUp,
        UnsetupNotice::FoundAt(s) => UnsetupNotice::FoundAt(s@),
        UnsetupNotice::SizeOnDisk(s) => UnsetupNotice::SizeOnDisk(s@),
        UnsetupNotice::InstalledRelease(s) => UnsetupNotice::InstalledRelease(s@),
        UnsetupNotice::Cancelled => UnsetupNotice::Cancelled,
        UnsetupNotice::Uninstalled { freed, base } => UnsetupNotice::Uninstalled {
            freed: freed@,
            base: base@,
        },
    }
}

pub open spec fn unsetup_action(a: UnsetupAction<String>) -> UnsetupAction<Seq<char>> {
    match a {
        UnsetupAction::CheckPath(s) => UnsetupAction::CheckPath(s@),
        UnsetupAction::Inspect(s) => UnsetupAction::Inspect(s@),
        UnsetupAction::Ask(s) => UnsetupAction::Ask(s@),
        UnsetupAction::Remove(s) => UnsetupAction::Remove(s@),
        UnsetupAction::Fail(s) => UnsetupAction::Fail(s@),
        UnsetupAction::Finish => UnsetupAction::Finish,
    }
}

pub open spec fn unsetup_phase(p: UnsetupPhase<String>) -> UnsetupPhase<Seq<char>> {
    match p {
        UnsetupPhase::Probing => UnsetupPhase::Probing,
        UnsetupPhase::Inspecting => UnsetupPhase::Inspecting,
        UnsetupPhase::Confirming { size } => UnsetupPhase::Confirming { size: size@ },
        UnsetupPhase::Removing { size } => UnsetupPhase::Removing { size: size@ },
        UnsetupPhase::Ended => UnsetupPhase::Ended,
    }
}

impl View for UnsetupTurn {
    type V = UnsetupModel;

    open spec fn view(&self) -> UnsetupModel {
        UnsetupModel {
            phase: unsetup_phase(self.phase),
            notices: self.notices@.map_values(|n: UnsetupNotice<String>| unsetup_notice(n)),
            action: unsetup_action(self.action),
        }
    }
}

/// The first turn.
pub open spec fn unsetup_start(base: Seq<char>) -> UnsetupModel {
    UnsetupModel {
        phase: UnsetupPhase::Probing,
        notices: seq![],
        action: UnsetupAction::CheckPath(base),
    }
}

/// Whether an event is one that the phase waits for.
pub open spec fn unsetup_awaited<S>(phase: UnsetupPhase<S>, event: UnsetupEvent) -> bool {
    match phase {
        UnsetupPhase::Probing => event is Exists,
        UnsetupPhase::Inspecting => event is Found,
        UnsetupPhase::Confirming { .. } => event is Answer,
        UnsetupPhase::Removing { .. } => event is Removed,
        UnsetupPhase::Ended => false,
    }
}

/// What is shown of an install tree before the user is asked.
pub open spec fn found_notices(
    base: Seq<char>,
    size: Seq<char>,
    version: Option<Seq<char>>,
) -> Seq<UnsetupNotice<Seq<char>>> {
    let named = match version {
        Some(contents) => recorded_name(contents),
        None => None,
    };
    let found = seq![
        UnsetupNotice::Blank,
        UnsetupNotice::FoundAt(base),
        UnsetupNotice::SizeOnDisk(size),
    ];
    match named {
        Some(name) => found.push(UnsetupNotice::InstalledRelease(name)).push(UnsetupNotice::Blank),
        None => found.push(UnsetupNotice::Blank),
    }
}

/// The turn that follows when a phase gets an event that it waits for.
pub open spec fn unsetup_next(
    base: Seq<char>,
    phase: UnsetupPhase<Seq<char>>,
    event: UnsetupEvent,
) -> UnsetupModel {
    match phase {
        UnsetupPhase::Probing => if event->Exists_0 {
            UnsetupModel {
                phase: UnsetupPhase::Inspecting,
                notices: seq![],
                action: UnsetupAction::Inspect(base),
            }
        } else {
            UnsetupModel {
                phase: UnsetupPhase::Ended,
                notices: seq![UnsetupNotice::NotSetUp],
                action: UnsetupAction::Finish,
            }
        },
        UnsetupPhase::Inspecting => {
            let size = tree_size_shown(event->tree, Counted::RegularFiles);
            UnsetupModel {
                phase: UnsetupPhase::Confirming { size },
                notices: found_notices(base, size, opt_string(event->version)),
                action: UnsetupAction::Ask(
                    "Remove "@ + base + " and everything under it? [y/N]"@,
                ),
            }
        },
        UnsetupPhase::Confirming { size } => if means_yes(event->Answer_0@) {
            UnsetupModel {
                phase: UnsetupPhase::Removing { size },
                notices: seq![],
                action: UnsetupAction::Remove(base),
            }
        } else {
            UnsetupModel {
                phase: UnsetupPhase::Ended,
                notices: seq![UnsetupNotice::Cancelled],
                action: UnsetupAction::Finish,
            }
        },
        UnsetupPhase::Removing { size } => match event->Removed_0 {
            Ok(_) => UnsetupModel {
                phase: UnsetupPhase::Ended,
                notices: seq![
                    UnsetupNotice::Blank,
                    UnsetupNotice::Uninstalled { freed: size, base },
                ],
                action: UnsetupAction::Finish,
            },
            Err(e) => UnsetupModel {
                phase: UnsetupPhase::Ended,
                notices: seq![],
                action: UnsetupAction::Fail("Failed to remove '"@ + base + "': "@ + e@),
            },
        },
        UnsetupPhase::Ended => UnsetupModel {
            phase: UnsetupPhase::Ended,
            notices: seq![],
            action: UnsetupAction::Finish,
        },
    }
}

/// Begin to remove what is installed below `base`.
pub fn cmd_unsetup(base: &str) -> (r: UnsetupTurn)
    ensures
        r@ == unsetup_start(base@),
{
    UnsetupTurn {
        phase: UnsetupPhase::Probing,
        notices: Vec::new(),
        action: UnsetupAction::CheckPath(base.to_owned()),
    }
}

/// What is shown of an install tree before the user is asked.
fn show_found(base: &str, size: &str, version: &Option<String>) -> (r: Vec<UnsetupNotice<String>>)
    ensures
        r@.map_values(|n: UnsetupNotice<String>| unsetup_notice(n)) == found_notices(
            base@,
            size@,
            opt_string(*version),
        ),
{
    let mut notices: Vec<UnsetupNotice<String>> = Vec::new();
    notices.push(UnsetupNotice::Blank);
    notices.push(UnsetupNotice::FoundAt(base.to_owned()));
    notices.push(UnsetupNotice::SizeOnDisk(size.to_owned()));
    let named: Option<String> = match version {
        Some(contents) => read_version_name(contents.as_str()),
        None => None,
    };
    if let Some(name) = named {
        notices.push(UnsetupNotice::InstalledRelease(name));
    }
    notices.push(UnsetupNotice::Blank);
    notices
}

/// Go on with the removal: the turn that follows when `phase` gets `event`, or
/// `None` where that is not what the phase waits for.
pub fn unsetup_step(base: &str, phase: UnsetupPhase<String>, event: UnsetupEvent) -> (r: Option<
    UnsetupTurn,
>)
    ensures
        match r {
            Some(t) => unsetup_awaited(phase, event) && t@ == unsetup_next(
                base@,
                unsetup_phase(phase),
                event,
            ),
            None => !unsetup_awaited(phase, event),
        },
{
    let mut notices: Vec<UnsetupNotice<String>> = Vec::new();
    match (phase, event) {
        (UnsetupPhase::Probing, UnsetupEvent::Exists(exists)) => {
            if exists {
                return Some(
                    UnsetupTurn {
                        phase: UnsetupPhase::Inspecting,
                        notices,
                        action: UnsetupAction::Inspect(base.to_owned()),
                    },
                );
            }
            notices.push(UnsetupNotice::NotSetUp);
            Some(UnsetupTurn { phase: UnsetupPhase::Ended, notices, action: UnsetupAction::Finish })
        },
        (UnsetupPhase::Inspecting, UnsetupEvent::Found { tree, version }) => {
            let size = show_tree_size(&tree, Counted::RegularFiles);
            let mut question = "Remove ".to_owned();
            question.append(base);
            question.append(" and everything under it? [y/N]");
            Some(
                UnsetupTurn {
                    notices: show_found(base, size.as_str(), &version),
                    phase: UnsetupPhase::Confirming { size },
                    action: UnsetupAction::Ask(question),
                },
            )
        },
        (UnsetupPhase::Confirming { size }, UnsetupEvent::Answer(answer)) => {
            if prompt_yes_no(answer.as_str()) {
                return Some(
                    UnsetupTurn {
                        phase: UnsetupPhase::Removing { size },
                        notices,
                        action: UnsetupAction::Remove(base.to_owned()),
                    },
                );
            }
            notices.push(UnsetupNotice::Cancelled);
            Some(UnsetupTurn { phase: UnsetupPhase::Ended, notices, action: UnsetupAction::Finish })
        },
        (UnsetupPhase::Removing { size }, UnsetupEvent::Removed(outcome)) => match outcome {
            Ok(_) => {
                notices.push(UnsetupNotice::Blank);
                notices.push(UnsetupNotice::Uninstalled { freed: size, base: base.to_owned() });
                Some(
                    UnsetupTurn {
                        phase: UnsetupPhase::Ended,
                        notices,
                        action: UnsetupAction::Finish,
                    },
                )
            },
            Err(e) => {
                let mut msg = "Failed to remove '".to_owned();
                msg.append(base);
                msg.append("': ");
                msg.append(e.as_str());
                Some(
                    UnsetupTurn {
                        phase: UnsetupPhase::Ended,
                        notices,
                        action: UnsetupAction::Fail(msg),
                    },
                )
            },
        },
        _ => None,
    }
}

// ── whole removals ────────────────────────────────────────────────────────────

/// The turn that a removal has come to after some events.
pub open spec fn unsetup_after(base: Seq<char>, events: Seq<UnsetupEvent>) -> UnsetupModel
    decreases events.len(),
{
    if events.len() == 0 {
        unsetup_start(base)
    } else {
        unsetup_next(base, unsetup_after(base, events.drop_last()).phase, events.last())
    }
}

/// Whether each of the events was waited for when it came.
pub open spec fn unsetup_trace(base: Seq<char>, events: Seq<UnsetupEvent>) -> bool
    decreases events.len(),
{
    events.len() == 0 || {
        &&& unsetup_trace(base, events.drop_last())
        &&& unsetup_awaited(unsetup_after(base, events.drop_last()).phase, events.last())
    }
}

/// Nothing is removed but the install tree, and that only after the user was asked
/// about it, as the very last thing before, and agreed.
pub proof fn law_removed_only_if_agreed(base: Seq<char>, events: Seq<UnsetupEvent>)
    requires
        unsetup_trace(base, events),
        unsetup_after(base, events).action is Remove,
    ensures
        unsetup_after(base, events).action == UnsetupAction::Remove(base),
        events.len() == 3,
        unsetup_after(base, events.drop_last()).action == UnsetupAction::Ask(
            "Remove "@ + base + " and everything under it? [y/N]"@,
        ),
        events.last() is Answer,
        means_yes(events.last()->Answer_0@),
{
    reveal_with_fuel(unsetup_trace, 5);
    reveal_with_fuel(unsetup_after, 5);
}

/// What is said to be freed is the size that the user was shown before.
pub proof fn law_freed_what_was_shown(base: Seq<char>, events: Seq<UnsetupEvent>)
    requires
        unsetup_trace(base, events),
        events.len() == 4,
        events[3]->Removed_0 is Ok,
    ensures
        ({
            let size = tree_size_shown(events[1]->tree, Counted::RegularFiles);
            &&& unsetup_after(base, events).notices.last() == UnsetupNotice::Uninstalled {
                freed: size,
                base,
            }
            &&& unsetup_after(base, events.take(2)).notices.contains(
                UnsetupNotice::SizeOnDisk(size),
            )
        }),
{
    reveal_with_fuel(unsetup_trace, 5);
    reveal_with_fuel(unsetup_after, 5);
    assert(events.take(2) == events.drop_last().drop_last());
    let shown = unsetup_after(base, events.take(2)).notices;
    assert(shown[2] == UnsetupNotice::SizeOnDisk(tree_size_shown(events[1]->tree, Counted::RegularFiles)));
}

/// How a removal goes: without an install tree there is nothing to do; a user who agrees
/// has it removed, and one who does not keeps it; and where it cannot be removed, the
/// message says why.
pub proof fn law_course_of_a_removal(
    base: Seq<char>,
    found: UnsetupEvent,
    answer: UnsetupEvent,
    reason: String,
)
    requires
        found is Found,
        answer is Answer,
    ensures
        ({
            let asked = seq![UnsetupEvent::Exists(true), found];
            let yes = asked.push(answer);
            let done = unsetup_after(base, yes.push(UnsetupEvent::Removed(Ok(()))));
            let failed = unsetup_after(base, yes.push(UnsetupEvent::Removed(Err(reason))));
            let missing = unsetup_after(base, seq![UnsetupEvent::Exists(false)]);
            &&& unsetup_start(base).action == UnsetupAction::CheckPath(base)
            &&& missing.action is Finish && missing.notices == seq![
                UnsetupNotice::<Seq<char>>::NotSetUp,
            ]
            &&& unsetup_trace(base, yes)
            &&& unsetup_after(base, asked).action is Ask
            &&& means_yes(answer->Answer_0@) ==> unsetup_after(base, yes).action
                == UnsetupAction::Remove(base) && done.action is Finish && (
            failed.action matches UnsetupAction::Fail(message) && ends_with(message, reason@))
            &&& !means_yes(answer->Answer_0@) ==> unsetup_after(base, yes).action is Finish
                && unsetup_after(base, yes).phase is Ended && unsetup_after(base, yes).notices
                == seq![UnsetupNotice::<Seq<char>>::Cancelled]
        }),
{
    reveal_with_fuel(unsetup_after, 6);
    reveal_with_fuel(unsetup_trace, 6);
    let none = Seq::<UnsetupEvent>::empty();
    let first = seq![UnsetupEvent::Exists(true)];
    let asked = seq![UnsetupEvent::Exists(true), found];
    let yes = asked.push(answer);
    assert(seq![UnsetupEvent::Exists(false)].drop_last() == none);
    assert(first.drop_last() == none);
    assert(asked.drop_last() == first);
    assert(yes.drop_last() == asked);
    assert(yes.push(UnsetupEvent::Removed(Ok(()))).drop_last() == yes);
    assert(yes.push(UnsetupEvent::Removed(Err(reason))).drop_last() == yes);
    let message = "Failed to remove '"@ + base + "': "@ + reason@;
    assert(message.skip(message.len() - reason@.len()) == reason@);
}

/// Before the user is asked, they are shown where the install tree is, how large it is
/// and, exactly where its name was recorded, which release it is.
pub proof fn law_found_is_shown(base: Seq<char>, size: Seq<char>, contents: Seq<char>)
    ensures
        ({
            let blank = trimmed(contents).len() == 0;
            let shown = found_notices(base, size, Some(contents));
            let unnamed = found_notices(base, size, None);
            &&& unnamed.contains(UnsetupNotice::FoundAt(base))
            &&& unnamed.contains(UnsetupNotice::SizeOnDisk(size))
            &&& forall|i: int|
                0 <= i < unnamed.len() ==> !(#[trigger] unnamed[i] is InstalledRelease)
            &&& blank ==> shown == unnamed
            &&& !blank ==> shown == unnamed.insert(
                3,
                UnsetupNotice::InstalledRelease(trimmed(contents)),
            )
        }),
{
    let shown = found_notices(base, size, Some(contents));
    let unnamed = found_notices(base, size, None);
    assert(unnamed[1] == UnsetupNotice::FoundAt(base));
    assert(unnamed[2] == UnsetupNotice::SizeOnDisk(size));
    if trimmed(contents).len() > 0 {
        assert(shown =~= unnamed.insert(3, UnsetupNotice::InstalledRelease(trimmed(contents))));
    }
}

/// Each step waits for its own kind of answer; the last one waits for nothing.
pub proof fn law_removal_waits_for(base: Seq<char>, events: Seq<UnsetupEvent>, event: UnsetupEvent)
    requires
        unsetup_trace(base, events),
    ensures
        unsetup_awaited(unsetup_after(base, events).phase, event) <==> match unsetup_after(
            base,
            events,
        ).action {
            UnsetupAction::CheckPath(_) => event is Exists,
            UnsetupAction::Inspect(_) => event is Found,
            UnsetupAction::Ask(_) => event is Answer,
            UnsetupAction::Remove(_) => event is Removed,
            UnsetupAction::Fail(_) | UnsetupAction::Finish => false,
        },
{
}

} // verus!
