//! Putting a new installation in place of the old one. The new one is put
//! together in a staging directory next to the install directory. When it is
//! complete, the old one is set aside, the new one is moved into place, and the old
//! one is cleared away. Where the move fails, the old one is moved back.

use vstd::prelude::*;

verus! {

/// Where the new installation comes from.
#[derive(Debug, Clone, Copy, PartialEq, Eq, Structural)]
pub enum InstallSource {
    /// A downloaded archive, to be extracted.
    Archive,
    /// A local build, to be copied.
    Local,
}

/// A directory that an installation works on.
#[derive(Debug, Clone, Copy, PartialEq, Eq, Structural)]
pub enum Place {
    /// The root of the install tree.
    Parent,
    /// The staging directory.
    Staging,
    /// The install directory.
    Package,
    /// The place for the old installation.
    Aside,
}

/// What an installation is waiting for.
#[derive(Debug, Clone, Copy, PartialEq, Eq, Structural)]
pub enum InstallPhase {
    MakingParent,
    ProbingStaging,
    ClearingStaging,
    MakingStaging,
    Populating,
    MarkingExecutable,
    ProbingOld,
    /// Something older may lie where the old installation is to go.
    ClearingAside,
    SettingAside,
    /// The new installation to be moved to where there is none.
    Moving,
    /// Whether there is an installation after a failed move.
    ProbingMoved,
    ClearingLeftover,
    /// The new installation to be moved to where the old one was.
    Replacing,
    /// The new installation is in place, and an old one may lie aside: the one that
    /// it replaced, or one that was left there.
    ClearingOld,
    Restoring,
    /// Whether there is an installation after a failed move back.
    ProbingRestored,
    ClearingSuperseded,
    /// An installation is in place.
    Finished,
    /// Something else has put an installation in place.
    Superseded,
    /// The new installation could not be put in place. The old one, if there was
    /// one, is where it was.
    Broken,
    /// The new installation could not be put in place, and the old one could not be
    /// moved back: it is kept where it was set aside.
    Stranded,
}

/// What there is to do next.
#[derive(Debug, Clone, Copy, PartialEq, Eq, Structural)]
pub enum InstallAction {
    /// Create a directory and its parents.
    MakeDirs(Place),
    /// Find out whether a directory exists.
    Probe(Place),
    /// Remove a directory. Things go on whether that is possible or not.
    Clear(Place),
    /// Extract or copy the new installation into the staging directory.
    Populate,
    /// Mark the programs in the staging directory as executable.
    MarkExecutable,
    /// Rename the install directory, to set the old installation aside.
    SetAside,
    /// Rename the staging directory to the install directory.
    Move,
    /// Rename the old installation back to the install directory.
    Restore,
    /// There is an installation in place.
    Finish,
    /// The new installation could not be put in place.
    Panic,
}

/// What came of the last thing to do.
#[derive(Debug, Clone, Copy, PartialEq, Eq, Structural)]
pub enum InstallEvent {
    /// It was done.
    Done,
    /// It could not be done.
    Failed,
    /// The directory exists, or not.
    Exists(bool),
    /// The directory could not be renamed.
    MoveFailed,
}

/// Whether an event is an answer to what a phase is waiting for.
pub open spec fn answers(phase: InstallPhase, event: InstallEvent) -> bool {
    match phase {
        InstallPhase::ProbingStaging
        | InstallPhase::ProbingOld
        | InstallPhase::ProbingMoved
        | InstallPhase::ProbingRestored => event is Exists,
        InstallPhase::MakingParent
        | InstallPhase::MakingStaging
        | InstallPhase::Populating
        | InstallPhase::MarkingExecutable
        | InstallPhase::ClearingStaging
        | InstallPhase::ClearingAside
        | InstallPhase::ClearingOld
        | InstallPhase::ClearingLeftover
        | InstallPhase::ClearingSuperseded => event is Done || event is Failed,
        InstallPhase::SettingAside
        | InstallPhase::Moving
        | InstallPhase::Replacing
        | InstallPhase::Restoring => event is Done || event is MoveFailed,
        InstallPhase::Finished
        | InstallPhase::Superseded
        | InstallPhase::Broken
        | InstallPhase::Stranded => false,
    }
}

/// What there is to do in a phase.
pub open spec fn action_in(phase: InstallPhase) -> InstallAction {
    match phase {
        InstallPhase::MakingParent => InstallAction::MakeDirs(Place::Parent),
        InstallPhase::ProbingStaging => InstallAction::Probe(Place::Staging),
        InstallPhase::ClearingStaging => InstallAction::Clear(Place::Staging),
        InstallPhase::MakingStaging => InstallAction::MakeDirs(Place::Staging),
        InstallPhase::Populating => InstallAction::Populate,
        InstallPhase::MarkingExecutable => InstallAction::MarkExecutable,
        InstallPhase::ProbingOld => InstallAction::Probe(Place::Package),
        InstallPhase::ClearingAside => InstallAction::Clear(Place::Aside),
        InstallPhase::SettingAside => InstallAction::SetAside,
        InstallPhase::Moving => InstallAction::Move,
        InstallPhase::ProbingMoved => InstallAction::Probe(Place::Package),
        InstallPhase::ClearingLeftover => InstallAction::Clear(Place::Staging),
        InstallPhase::Replacing => InstallAction::Move,
        InstallPhase::ClearingOld => InstallAction::Clear(Place::Aside),
        InstallPhase::Restoring => InstallAction::Restore,
        InstallPhase::ProbingRestored => InstallAction::Probe(Place::Package),
        InstallPhase::ClearingSuperseded => InstallAction::Clear(Place::Staging),
        InstallPhase::Finished => InstallAction::Finish,
        InstallPhase::Superseded => InstallAction::Finish,
        InstallPhase::Broken => InstallAction::Panic,
        InstallPhase::Stranded => InstallAction::Panic,
    }
}

/// The phase in which an installation begins.
pub open spec fn first_phase(source: InstallSource) -> InstallPhase {
    match source {
        InstallSource::Archive => InstallPhase::MakingParent,
        InstallSource::Local => InstallPhase::ProbingStaging,
    }
}

/// The phase in which the staging directory is filled once nothing is left over in
/// it. A copy creates it by itself.
pub open spec fn filling(source: InstallSource) -> InstallPhase {
    match source {
        InstallSource::Archive => InstallPhase::MakingStaging,
        InstallSource::Local => InstallPhase::Populating,
    }
}

/// The phase that follows when a phase gets an event that it waits for.
pub open spec fn next_phase(
    source: InstallSource,
    phase: InstallPhase,
    event: InstallEvent,
) -> InstallPhase {
    let done = event is Done;
    let exists = event == InstallEvent::Exists(true);
    match phase {
        InstallPhase::MakingParent => if done {
            InstallPhase::ProbingStaging
        } else {
            InstallPhase::Broken
        },
        InstallPhase::ProbingStaging => if exists {
            InstallPhase::ClearingStaging
        } else {
            filling(source)
        },
        InstallPhase::ClearingStaging => filling(source),
        InstallPhase::MakingStaging => if done {
            InstallPhase::Populating
        } else {
            InstallPhase::Broken
        },
        InstallPhase::Populating => if done {
            InstallPhase::MarkingExecutable
        } else {
            InstallPhase::Broken
        },
        InstallPhase::MarkingExecutable => if done {
            InstallPhase::ProbingOld
        } else {
            InstallPhase::Broken
        },
        InstallPhase::ProbingOld => if exists {
            InstallPhase::ClearingAside
        } else {
            InstallPhase::Moving
        },
        InstallPhase::ClearingAside => InstallPhase::SettingAside,
        InstallPhase::SettingAside => if done {
            InstallPhase::Replacing
        } else {
            InstallPhase::Broken
        },
        InstallPhase::Moving => if done {
            InstallPhase::ClearingOld
        } else {
            InstallPhase::ProbingMoved
        },
        InstallPhase::ProbingMoved => if exists {
            InstallPhase::ClearingLeftover
        } else {
            InstallPhase::Broken
        },
        InstallPhase::ClearingLeftover => InstallPhase::Finished,
        InstallPhase::Replacing => if done {
            InstallPhase::ClearingOld
        } else {
            InstallPhase::Restoring
        },
        InstallPhase::ClearingOld => InstallPhase::Finished,
        InstallPhase::Restoring => if done {
            InstallPhase::Broken
        } else {
            InstallPhase::ProbingRestored
        },
        InstallPhase::ProbingRestored => if exists {
            InstallPhase::ClearingSuperseded
        } else {
            InstallPhase::Stranded
        },
        InstallPhase::ClearingSuperseded => InstallPhase::Superseded,
        InstallPhase::Finished
        | InstallPhase::Superseded
        | InstallPhase::Broken
        | InstallPhase::Stranded => phase,
    }
}

/// How an installation begins.
pub open spec fn install_start(source: InstallSource) -> (InstallPhase, InstallAction) {
    (first_phase(source), action_in(first_phase(source)))
}

/// How an installation goes on after an event.
pub open spec fn install_next(source: InstallSource, phase: InstallPhase, event: InstallEvent) -> (
    InstallPhase,
    InstallAction,
) {
    (next_phase(source, phase, event), action_in(next_phase(source, phase, event)))
}

/// What there is to do in a phase.
pub fn install_action(phase: InstallPhase) -> (r: InstallAction)
    ensures
        r == action_in(phase),
{
    match phase {
        InstallPhase::MakingParent => InstallAction::MakeDirs(Place::Parent),
        InstallPhase::ProbingStaging => InstallAction::Probe(Place::Staging),
        InstallPhase::ClearingStaging => InstallAction::Clear(Place::Staging),
        InstallPhase::MakingStaging => InstallAction::MakeDirs(Place::Staging),
        InstallPhase::Populating => InstallAction::Populate,
        InstallPhase::MarkingExecutable => InstallAction::MarkExecutable,
        InstallPhase::ProbingOld => InstallAction::Probe(Place::Package),
        InstallPhase::ClearingAside => InstallAction::Clear(Place::Aside),
        InstallPhase::SettingAside => InstallAction::SetAside,
        InstallPhase::Moving => InstallAction::Move,
        InstallPhase::ProbingMoved => InstallAction::Probe(Place::Package),
        InstallPhase::ClearingLeftover => InstallAction::Clear(Place::Staging),
        InstallPhase::Replacing => InstallAction::Move,
        InstallPhase::ClearingOld => InstallAction::Clear(Place::Aside),
        InstallPhase::Restoring => InstallAction::Restore,
        InstallPhase::ProbingRestored => InstallAction::Probe(Place::Package),
        InstallPhase::ClearingSuperseded => InstallAction::Clear(Place::Staging),
        InstallPhase::Finished => InstallAction::Finish,
        InstallPhase::Superseded => InstallAction::Finish,
        InstallPhase::Broken => InstallAction::Panic,
        InstallPhase::Stranded => InstallAction::Panic,
    }
}

/// Begin an installation: extract an archive or copy a local build into place
/// atomically, by way of the staging directory.
pub fn install_package(source: InstallSource) -> (r: (InstallPhase, InstallAction))
    ensures
        r == install_start(source),
{
    let phase = match source {
        InstallSource::Archive => InstallPhase::MakingParent,
        InstallSource::Local => InstallPhase::ProbingStaging,
    };
    (phase, install_action(phase))
}

/// The phase in which the staging directory is filled.
fn fill(source: InstallSource) -> (r: InstallPhase)
    ensures
        r == filling(source),
{
    match source {
        InstallSource::Archive => InstallPhase::MakingStaging,
        InstallSource::Local => InstallPhase::Populating,
    }
}

/// Go on with an installation: where it stands when `phase` gets `event`, and what
/// there is to do next; or `None` where that is not what the phase waits for.
pub fn install_step(source: InstallSource, phase: InstallPhase, event: InstallEvent) -> (r: Option<
    (InstallPhase, InstallAction),
>)
    ensures
        r == if answers(phase, event) {
            Some(install_next(source, phase, event))
        } else {
            None
        },
{
    let next = match (phase, event) {
        (InstallPhase::MakingParent, InstallEvent::Done) => InstallPhase::ProbingStaging,
        (InstallPhase::MakingParent, InstallEvent::Failed) => InstallPhase::Broken,
        (InstallPhase::ProbingStaging, InstallEvent::Exists(true)) => InstallPhase::ClearingStaging,
        (InstallPhase::ProbingStaging, InstallEvent::Exists(false)) => fill(source),
        (InstallPhase::ClearingStaging, InstallEvent::Done) => fill(source),
        (InstallPhase::ClearingStaging, InstallEvent::Failed) => fill(source),
        (InstallPhase::MakingStaging, InstallEvent::Done) => InstallPhase::Populating,
        (InstallPhase::MakingStaging, InstallEvent::Failed) => InstallPhase::Broken,
        (InstallPhase::Populating, InstallEvent::Done) => InstallPhase::MarkingExecutable,
        (InstallPhase::Populating, InstallEvent::Failed) => InstallPhase::Broken,
        (InstallPhase::MarkingExecutable, InstallEvent::Done) => InstallPhase::ProbingOld,
        (InstallPhase::MarkingExecutable, InstallEvent::Failed) => InstallPhase::Broken,
        (InstallPhase::ProbingOld, InstallEvent::Exists(true)) => InstallPhase::ClearingAside,
        (InstallPhase::ProbingOld, InstallEvent::Exists(false)) => InstallPhase::Moving,
        (InstallPhase::ClearingAside, InstallEvent::Done) => InstallPhase::SettingAside,
        (InstallPhase::ClearingAside, InstallEvent::Failed) => InstallPhase::SettingAside,
        (InstallPhase::SettingAside, InstallEvent::Done) => InstallPhase::Replacing,
        (InstallPhase::SettingAside, InstallEvent::MoveFailed) => InstallPhase::Broken,
        (InstallPhase::Moving, InstallEvent::Done) => InstallPhase::ClearingOld,
        (InstallPhase::Moving, InstallEvent::MoveFailed) => InstallPhase::ProbingMoved,
        (InstallPhase::ProbingMoved, InstallEvent::Exists(true)) => InstallPhase::ClearingLeftover,
        (InstallPhase::ProbingMoved, InstallEvent::Exists(false)) => InstallPhase::Broken,
        (InstallPhase::ClearingLeftover, InstallEvent::Done) => InstallPhase::Finished,
        (InstallPhase::ClearingLeftover, InstallEvent::Failed) => InstallPhase::Finished,
        (InstallPhase::Replacing, InstallEvent::Done) => InstallPhase::ClearingOld,
        (InstallPhase::Replacing, InstallEvent::MoveFailed) => InstallPhase::Restoring,
        (InstallPhase::ClearingOld, InstallEvent::Done) => InstallPhase::Finished,
        (InstallPhase::ClearingOld, InstallEvent::Failed) => InstallPhase::Finished,
        (InstallPhase::Restoring, InstallEvent::Done) => InstallPhase::Broken,
        (InstallPhase::Restoring, InstallEvent::MoveFailed) => InstallPhase::ProbingRestored,
        (InstallPhase::ProbingRestored, InstallEvent::Exists(true)) => {
            InstallPhase::ClearingSuperseded
        },
        (InstallPhase::ProbingRestored, InstallEvent::Exists(false)) => InstallPhase::Stranded,
        (InstallPhase::ClearingSuperseded, InstallEvent::Done) => InstallPhase::Superseded,
        (InstallPhase::ClearingSuperseded, InstallEvent::Failed) => InstallPhase::Superseded,
        _ => {
            return None;
        },
    };
    Some((next, install_action(next)))
}

// ── whole installations ───────────────────────────────────────────────────────

/// Where an installation stands after some events, and what there is to do next.
pub open spec fn install_after(source: InstallSource, events: Seq<InstallEvent>) -> (
    InstallPhase,
    InstallAction,
)
    decreases events.len(),
{
    if events.len() == 0 {
        install_start(source)
    } else {
        install_next(source, install_after(source, events.drop_last()).0, events.last())
    }
}

/// Whether each of some events is an answer to what the installation was waiting
/// for.
pub open spec fn install_trace(source: InstallSource, events: Seq<InstallEvent>) -> bool {
    forall|n: int|
        0 <= n < events.len() ==> answers(
            (#[trigger] install_after(source, events.take(n))).0,
            events[n],
        )
}

/// Whether a step was done in the course of some events: it was what there was to
/// do at some point, and the next event says that it was done.
pub open spec fn was_done(
    source: InstallSource,
    events: Seq<InstallEvent>,
    action: InstallAction,
) -> bool {
    exists|n: int|
        0 <= n < events.len() && (#[trigger] install_after(source, events.take(n))).1 == action
            && events[n] == InstallEvent::Done
}

/// What was done in the course of some events was done by the last of them or
/// before it.
proof fn lemma_done(source: InstallSource, events: Seq<InstallEvent>, action: InstallAction)
    requires
        events.len() > 0,
    ensures
        was_done(source, events, action) <==> was_done(source, events.drop_last(), action) || (
        install_after(source, events.drop_last()).1 == action && events.last()
            == InstallEvent::Done),
{
    let prior = events.drop_last();
    let last = prior.len() as int;
    assert(events.take(last) == prior);
    if was_done(source, events, action) {
        let n = choose|n: int|
            0 <= n < events.len() && (#[trigger] install_after(source, events.take(n))).1 == action
                && events[n] == InstallEvent::Done;
        if n < last {
            assert(prior.take(n) == events.take(n));
            assert(install_after(source, prior.take(n)).1 == action);
        }
    }
    if was_done(source, prior, action) {
        let n = choose|n: int|
            0 <= n < prior.len() && (#[trigger] install_after(source, prior.take(n))).1 == action
                && prior[n] == InstallEvent::Done;
        assert(prior.take(n) == events.take(n));
        assert(install_after(source, events.take(n)).1 == action);
    }
    assert(install_after(source, events.take(last)) == install_after(source, prior));
}

/// The beginning of an installation is an installation, up to what the last event
/// answers.
proof fn lemma_trace(source: InstallSource, events: Seq<InstallEvent>)
    requires
        install_trace(source, events),
        events.len() > 0,
    ensures
        install_trace(source, events.drop_last()),
        answers(install_after(source, events.drop_last()).0, events.last()),
{
    let prior = events.drop_last();
    assert forall|n: int| 0 <= n < prior.len() implies answers(
        (#[trigger] install_after(source, prior.take(n))).0,
        prior[n],
    ) by {
        assert(prior.take(n) == events.take(n));
        assert(answers(install_after(source, events.take(n)).0, events[n]));
    }
    let last = prior.len() as int;
    assert(events.take(last) == prior);
    assert(answers(install_after(source, events.take(last)).0, events[last]));
}

/// Whether a phase comes before the staging directory is complete.
pub open spec fn staging(phase: InstallPhase) -> bool {
    match phase {
        InstallPhase::MakingParent
        | InstallPhase::ProbingStaging
        | InstallPhase::ClearingStaging
        | InstallPhase::MakingStaging
        | InstallPhase::Populating
        | InstallPhase::MarkingExecutable => true,
        _ => false,
    }
}

/// What was done when an installation has come to a phase.
proof fn lemma_what_was_done(source: InstallSource, events: Seq<InstallEvent>)
    requires
        install_trace(source, events),
    ensures
        ({
            let phase = install_after(source, events).0;
            let populated = was_done(source, events, InstallAction::Populate);
            let marked = was_done(source, events, InstallAction::MarkExecutable);
            let set_aside = was_done(source, events, InstallAction::SetAside);
            let moved = was_done(source, events, InstallAction::Move);
            let restored = was_done(source, events, InstallAction::Restore);
            &&& phase is MarkingExecutable ==> populated
            &&& !staging(phase) && !(phase is Broken) ==> populated && marked
            &&& set_aside ==> populated && marked
            &&& match phase {
                InstallPhase::Replacing
                | InstallPhase::Restoring
                | InstallPhase::ProbingRestored
                | InstallPhase::ClearingSuperseded
                | InstallPhase::Superseded
                | InstallPhase::Stranded => set_aside && !moved && !restored,
                InstallPhase::ClearingOld => moved,
                InstallPhase::Finished => moved || !set_aside,
                InstallPhase::Broken => !moved && (restored || !set_aside),
                _ => !set_aside && !moved && !restored,
            }
        }),
    decreases events.len(),
{
    if events.len() > 0 {
        lemma_trace(source, events);
        lemma_what_was_done(source, events.drop_last());
        lemma_done(source, events, InstallAction::Populate);
        lemma_done(source, events, InstallAction::MarkExecutable);
        lemma_done(source, events, InstallAction::SetAside);
        lemma_done(source, events, InstallAction::Move);
        lemma_done(source, events, InstallAction::Restore);
        let prior = events.drop_last();
        assert(install_after(source, prior).1 == action_in(install_after(source, prior).0));
    }
}

/// The old installation is touched, and the new one moved into place, only when the
/// new one is complete in the staging directory, with its programs marked as
/// executable.
pub proof fn law_replaced_only_when_complete(source: InstallSource, events: Seq<InstallEvent>)
    requires
        install_trace(source, events),
        install_after(source, events).1 == InstallAction::SetAside || install_after(
            source,
            events,
        ).1 == InstallAction::Move,
    ensures
        was_done(source, events, InstallAction::Populate),
        was_done(source, events, InstallAction::MarkExecutable),
{
    lemma_what_was_done(source, events);
    assert(install_after(source, events).1 == action_in(install_after(source, events).0));
}

/// An installation that has ended has moved the new one into place, or has left the
/// old one where it was, or has moved it back.
pub proof fn law_old_or_new(source: InstallSource, events: Seq<InstallEvent>)
    requires
        install_trace(source, events),
        install_after(source, events).0 is Finished || install_after(source, events).0 is Broken,
    ensures
        was_done(source, events, InstallAction::Move) || !was_done(
            source,
            events,
            InstallAction::SetAside,
        ) || was_done(source, events, InstallAction::Restore),
{
    lemma_what_was_done(source, events);
}

/// No step creates, fills or clears the install directory: what stands there has
/// been renamed to it, and leaves it by being renamed.
pub proof fn law_install_directory_only_renamed(
    source: InstallSource,
    phase: InstallPhase,
    event: InstallEvent,
)
    ensures
        install_next(source, phase, event).1 != InstallAction::MakeDirs(Place::Package),
        install_next(source, phase, event).1 != InstallAction::Clear(Place::Package),
        install_start(source).1 != InstallAction::MakeDirs(Place::Package),
        install_start(source).1 != InstallAction::Clear(Place::Package),
{
}

// ── what is where on disk ─────────────────────────────────────────────────────

/// What stands in a directory.
pub enum Tree {
    Nothing,
    /// The whole installation from before.
    Old,
    /// The whole new installation, and nothing else.
    New,
    /// Anything else, such as parts of an installation.
    Other,
}

/// What stands in the install directory, in the place for the old installation, and
/// in the staging directory.
pub struct Disk {
    pub package: Tree,
    pub aside: Tree,
    pub staging: Tree,
}

/// What is left in a directory that could not be removed.
pub open spec fn remains(tree: Tree) -> Tree {
    match tree {
        Tree::Nothing => Tree::Nothing,
        _ => Tree::Other,
    }
}

/// What a step that was done changes there. What is filled in among something else
/// is not the new installation alone.
pub open spec fn disk_done(disk: Disk, action: InstallAction) -> Disk {
    match action {
        InstallAction::Clear(Place::Staging) => Disk { staging: Tree::Nothing, ..disk },
        InstallAction::Clear(Place::Aside) => Disk { aside: Tree::Nothing, ..disk },
        InstallAction::Populate => Disk {
            staging: match disk.staging {
                Tree::Nothing => Tree::New,
                _ => Tree::Other,
            },
            ..disk
        },
        InstallAction::SetAside => Disk { package: Tree::Nothing, aside: disk.package, ..disk },
        InstallAction::Move => Disk { package: disk.staging, staging: Tree::Nothing, ..disk },
        InstallAction::Restore => Disk { package: disk.aside, aside: Tree::Nothing, ..disk },
        _ => disk,
    }
}

/// What a step that failed may have changed there. A directory that could not be
/// renamed is where it was.
pub open spec fn disk_failed(disk: Disk, action: InstallAction) -> Disk {
    match action {
        InstallAction::Clear(Place::Staging) => Disk { staging: remains(disk.staging), ..disk },
        InstallAction::Clear(Place::Aside) => Disk { aside: remains(disk.aside), ..disk },
        InstallAction::Populate => Disk { staging: Tree::Other, ..disk },
        _ => disk,
    }
}

/// What stands there after some events, where `disk` was there at the beginning.
pub open spec fn disk_after(source: InstallSource, disk: Disk, events: Seq<InstallEvent>) -> Disk
    decreases events.len(),
{
    if events.len() == 0 {
        disk
    } else {
        let prior = disk_after(source, disk, events.drop_last());
        let action = install_after(source, events.drop_last()).1;
        if events.last() is Done {
            disk_done(prior, action)
        } else {
            disk_failed(prior, action)
        }
    }
}

/// Whether what an event tells of a directory is so.
pub open spec fn truthful(disk: Disk, action: InstallAction, event: InstallEvent) -> bool {
    match action {
        InstallAction::Probe(Place::Package) => event == InstallEvent::Exists(
            !(disk.package is Nothing),
        ),
        InstallAction::Probe(Place::Staging) => event == InstallEvent::Exists(
            !(disk.staging is Nothing),
        ),
        _ => true,
    }
}

/// Whether each event that tells whether there is a directory tells what is so:
/// nothing else works on these directories meanwhile.
pub open spec fn undisturbed(source: InstallSource, disk: Disk, events: Seq<InstallEvent>) -> bool
    decreases events.len(),
{
    events.len() == 0 || {
        let prior = events.drop_last();
        &&& undisturbed(source, disk, prior)
        &&& truthful(
            disk_after(source, disk, prior),
            install_after(source, prior).1,
            events.last(),
        )
    }
}

/// Whether the staging directory was empty when it came to be filled: there was
/// nothing in it, or what there was has been cleared away.
pub open spec fn clean_staging(
    source: InstallSource,
    disk: Disk,
    events: Seq<InstallEvent>,
) -> bool {
    disk.staging is Nothing || was_done(source, events, InstallAction::Clear(Place::Staging))
}

/// The replacement is atomic: where an installation ends well, the whole new one is
/// in place; where it fails, what was there before is there still, unchanged. At no
/// point is the old one lost: until the new one is in place, it stands in the
/// install directory or is set aside, from where it is moved back. Only where that
/// fails too does it stay aside.
///
/// What an earlier installation left in the staging directory, and what could not be
/// cleared away there, ends up in place along with the new one.
pub proof fn law_replacement_is_atomic(
    source: InstallSource,
    disk: Disk,
    events: Seq<InstallEvent>,
)
    requires
        install_trace(source, events),
        undisturbed(source, disk, events),
    ensures
        ({
            let after = disk_after(source, disk, events);
            let phase = install_after(source, events).0;
            let moved = was_done(source, events, InstallAction::Move);
            &&& phase is Finished ==> moved && (after.package is New || after.package is Other)
            &&& moved && clean_staging(source, disk, events) ==> after.package is New
            &&& phase is Broken ==> after.package == disk.package
            &&& phase is Stranded ==> after.package is Nothing && after.aside == disk.package
            &&& !(phase is Superseded)
            &&& !moved ==> after.package == disk.package || after.aside == disk.package
        }),
{
    lemma_disk(source, disk, events);
    lemma_what_was_done(source, events);
}

/// An installation that has ended well leaves nothing behind but the new one: the
/// staging directory is gone, and so is what lay aside, unless it could not be
/// removed.
pub proof fn law_nothing_is_left_behind(
    source: InstallSource,
    disk: Disk,
    events: Seq<InstallEvent>,
)
    requires
        install_trace(source, events),
        undisturbed(source, disk, events),
        install_after(source, events).0 is Finished,
    ensures
        disk_after(source, disk, events).staging is Nothing,
        events.len() > 0,
        install_after(source, events.drop_last()).1 == InstallAction::Clear(Place::Aside),
        events.last() is Done ==> disk_after(source, disk, events).aside is Nothing,
{
    lemma_disk(source, disk, events);
    lemma_trace(source, events);
    lemma_disk(source, disk, events.drop_last());
    let prior = events.drop_last();
    assert(install_after(source, prior).1 == action_in(install_after(source, prior).0));
}

/// What stands where when an installation has come to a phase.
#[verifier::rlimit(40)]
proof fn lemma_disk(source: InstallSource, disk: Disk, events: Seq<InstallEvent>)
    requires
        install_trace(source, events),
        undisturbed(source, disk, events),
    ensures
        ({
            let after = disk_after(source, disk, events);
            let clean = clean_staging(source, disk, events);
            match install_after(source, events).0 {
                InstallPhase::MakingParent | InstallPhase::ProbingStaging => after == disk,
                InstallPhase::ClearingStaging => after == disk && !(disk.staging is Nothing),
                InstallPhase::MakingStaging | InstallPhase::Populating => after.package
                    == disk.package && (clean ==> after.staging is Nothing),
                InstallPhase::MarkingExecutable
                | InstallPhase::ProbingOld
                | InstallPhase::ClearingAside
                | InstallPhase::SettingAside => after.package == disk.package && filled(
                    after.staging,
                    clean,
                ),
                InstallPhase::Moving => after.package is Nothing && disk.package is Nothing
                    && filled(after.staging, clean),
                InstallPhase::ProbingMoved => after.package is Nothing && disk.package is Nothing,
                InstallPhase::Replacing => after.package is Nothing && after.aside == disk.package
                    && filled(after.staging, clean),
                InstallPhase::Restoring
                | InstallPhase::ProbingRestored
                | InstallPhase::Stranded => after.package is Nothing && after.aside == disk.package,
                InstallPhase::ClearingOld | InstallPhase::Finished => filled(after.package, clean)
                    && after.staging is Nothing && was_done(source, events, InstallAction::Move),
                InstallPhase::Broken => after.package == disk.package,
                InstallPhase::ClearingSuperseded
                | InstallPhase::Superseded
                | InstallPhase::ClearingLeftover => false,
            }
        }),
    decreases events.len(),
{
    if events.len() > 0 {
        let prior = events.drop_last();
        lemma_trace(source, events);
        lemma_disk(source, disk, prior);
        lemma_what_was_done(source, events);
        lemma_done(source, events, InstallAction::Move);
        lemma_done(source, events, InstallAction::Clear(Place::Staging));
        assert(install_after(source, prior).1 == action_in(install_after(source, prior).0));
    }
}

/// Whether a directory has been filled with the new installation: with that alone
/// where it was clean before.
pub open spec fn filled(tree: Tree, clean: bool) -> bool {
    tree is New || (tree is Other && !clean)
}

// ── how installations go on and end ───────────────────────────────────────────

/// Which events answer a step: a question is answered by whether the directory exists, a
/// rename is done or could not be done, other work is done or failed; and nothing is
/// waited for at the end.
pub proof fn law_what_answers_a_step(phase: InstallPhase, event: InstallEvent)
    ensures
        answers(phase, event) <==> match action_in(phase) {
            InstallAction::Probe(_) => event is Exists,
            InstallAction::MakeDirs(_)
            | InstallAction::Clear(_)
            | InstallAction::Populate
            | InstallAction::MarkExecutable => event is Done || event is Failed,
            InstallAction::SetAside
            | InstallAction::Move
            | InstallAction::Restore => event is Done || event is MoveFailed,
            InstallAction::Finish | InstallAction::Panic => false,
        },
{
}

/// Whether a directory that is to be removed can be removed makes no difference to what
/// comes next.
pub proof fn law_clearing_may_fail(source: InstallSource, phase: InstallPhase)
    requires
        action_in(phase) is Clear,
    ensures
        next_phase(source, phase, InstallEvent::Done) == next_phase(
            source,
            phase,
            InstallEvent::Failed,
        ),
        action_in(next_phase(source, phase, InstallEvent::Failed)) != InstallAction::Panic,
{
}

/// Whether an event tells that something went wrong which an installation cannot do
/// without. What cannot be removed is no such thing.
pub open spec fn harmless(action: InstallAction, event: InstallEvent) -> bool {
    action is Clear || !(event is Failed || event is MoveFailed)
}

/// An installation in which nothing goes wrong, and which nothing disturbs, does not fail:
/// it ends with the new one moved into place, or has not ended yet.
pub proof fn law_installation_succeeds(
    source: InstallSource,
    disk: Disk,
    events: Seq<InstallEvent>,
)
    requires
        install_trace(source, events),
        undisturbed(source, disk, events),
        forall|n: int|
            0 <= n < events.len() ==> harmless(
                (#[trigger] install_after(source, events.take(n))).1,
                events[n],
            ),
    ensures
        install_after(source, events).1 != InstallAction::Panic,
        install_after(source, events).1 != InstallAction::Restore,
        install_after(source, events).1 == InstallAction::Finish ==> was_done(
            source,
            events,
            InstallAction::Move,
        ),
{
    lemma_going_well(source, events);
    lemma_disk(source, disk, events);
    assert(install_after(source, events).1 == action_in(install_after(source, events).0));
}

proof fn lemma_going_well(source: InstallSource, events: Seq<InstallEvent>)
    requires
        install_trace(source, events),
        forall|n: int|
            0 <= n < events.len() ==> harmless(
                (#[trigger] install_after(source, events.take(n))).1,
                events[n],
            ),
    ensures
        match install_after(source, events).0 {
            InstallPhase::ProbingMoved
            | InstallPhase::ClearingLeftover
            | InstallPhase::Restoring
            | InstallPhase::ProbingRestored
            | InstallPhase::ClearingSuperseded
            | InstallPhase::Superseded
            | InstallPhase::Broken
            | InstallPhase::Stranded => false,
            _ => true,
        },
    decreases events.len(),
{
    if events.len() > 0 {
        let prior = events.drop_last();
        lemma_trace(source, events);
        assert forall|n: int| 0 <= n < prior.len() implies harmless(
            (#[trigger] install_after(source, prior.take(n))).1,
            prior[n],
        ) by {
            assert(prior.take(n) == events.take(n));
            assert(harmless(install_after(source, events.take(n)).1, events[n]));
        }
        lemma_going_well(source, prior);
        let last = prior.len() as int;
        assert(events.take(last) == prior);
        assert(harmless(install_after(source, events.take(last)).1, events[last]));
        assert(install_after(source, prior).1 == action_in(install_after(source, prior).0));
    }
}

/// An installation comes to an end after at most thirteen events.
pub proof fn law_installation_ends(source: InstallSource, events: Seq<InstallEvent>)
    requires
        install_trace(source, events),
    ensures
        events.len() <= 13,
        events.len() == 13 ==> install_after(source, events).1 == InstallAction::Finish
            || install_after(source, events).1 == InstallAction::Panic,
{
    lemma_steps_left(source, events);
}

/// How many events there are at most before an installation ends.
spec fn steps_left(phase: InstallPhase) -> nat {
    match phase {
        InstallPhase::MakingParent => 13,
        InstallPhase::ProbingStaging => 12,
        InstallPhase::ClearingStaging => 11,
        InstallPhase::MakingStaging => 10,
        InstallPhase::Populating => 9,
        InstallPhase::MarkingExecutable => 8,
        InstallPhase::ProbingOld => 7,
        InstallPhase::ClearingAside => 6,
        InstallPhase::SettingAside => 5,
        InstallPhase::Replacing => 4,
        InstallPhase::Restoring => 3,
        InstallPhase::ProbingRestored => 2,
        InstallPhase::ClearingSuperseded => 1,
        InstallPhase::Moving => 3,
        InstallPhase::ProbingMoved => 2,
        InstallPhase::ClearingLeftover => 1,
        InstallPhase::ClearingOld => 1,
        InstallPhase::Finished
        | InstallPhase::Superseded
        | InstallPhase::Broken
        | InstallPhase::Stranded => 0,
    }
}

proof fn lemma_steps_left(source: InstallSource, events: Seq<InstallEvent>)
    requires
        install_trace(source, events),
    ensures
        events.len() + steps_left(install_after(source, events).0) <= 13,
        install_after(source, events).1 == action_in(install_after(source, events).0),
    decreases events.len(),
{
    if events.len() > 0 {
        lemma_trace(source, events);
        lemma_steps_left(source, events.drop_last());
    }
}

/// What follows a step that failed. Without its directories, its contents or its
/// executable programs there is no new installation, and without the old one set aside
/// there is no place for it. Where the new one cannot be moved, the old one is moved back
/// if it was set aside. Otherwise, and where it cannot be moved back, it is found out
/// whether something else has put an installation in place: if so that one is kept, and
/// the staging directory is cleared.
pub proof fn law_after_a_failure(source: InstallSource, phase: InstallPhase)
    ensures
        ({
            let failed = action_in(next_phase(source, phase, InstallEvent::Failed));
            let unmoved = next_phase(source, phase, InstallEvent::MoveFailed);
            let there = next_phase(source, unmoved, InstallEvent::Exists(true));
            let missing = next_phase(source, unmoved, InstallEvent::Exists(false));
            match action_in(phase) {
                InstallAction::MakeDirs(_)
                | InstallAction::Populate
                | InstallAction::MarkExecutable => failed == InstallAction::Panic,
                InstallAction::SetAside => action_in(unmoved) == InstallAction::Panic,
                InstallAction::Move => action_in(unmoved) == InstallAction::Restore || (action_in(
                    unmoved,
                ) == InstallAction::Probe(Place::Package) && action_in(there)
                    == InstallAction::Clear(Place::Staging) && action_in(
                    next_phase(source, there, InstallEvent::Done),
                ) == InstallAction::Finish && action_in(missing) == InstallAction::Panic),
                InstallAction::Restore => action_in(next_phase(source, phase, InstallEvent::Done))
                    == InstallAction::Panic && action_in(unmoved) == InstallAction::Probe(
                    Place::Package,
                ) && action_in(there) == InstallAction::Clear(Place::Staging) && action_in(
                    next_phase(source, there, InstallEvent::Done),
                ) == InstallAction::Finish && action_in(missing) == InstallAction::Panic,
                _ => true,
            }
        }),
{
}

/// A new installation that cannot be moved into place has the old one moved back exactly
/// where that was set aside.
pub proof fn law_moved_back_where_set_aside(source: InstallSource, events: Seq<InstallEvent>)
    requires
        install_trace(source, events),
        install_after(source, events).1 == InstallAction::Move,
    ensures
        install_next(source, install_after(source, events).0, InstallEvent::MoveFailed).1
            == InstallAction::Restore <==> was_done(source, events, InstallAction::SetAside),
{
    lemma_what_was_done(source, events);
    assert(install_after(source, events).1 == action_in(install_after(source, events).0));
}

/// What comes before what: leftovers are cleared from the staging directory where there
/// are any, the place for the old installation is cleared before the old one goes there,
/// the old one is set aside exactly where there is one, and after the new one has been
/// moved what lies aside is cleared away.
pub proof fn law_order_of_an_installation(
    source: InstallSource,
    phase: InstallPhase,
    event: InstallEvent,
)
    requires
        answers(phase, event),
    ensures
        ({
            let action = action_in(phase);
            let next = action_in(next_phase(source, phase, event));
            &&& action == InstallAction::Probe(Place::Staging) ==> (next == InstallAction::Clear(
                Place::Staging,
            ) <==> event == InstallEvent::Exists(true))
            &&& next == InstallAction::SetAside ==> action == InstallAction::Clear(Place::Aside)
            &&& action == InstallAction::MarkExecutable && event is Done ==> next
                == InstallAction::Probe(Place::Package) && action_in(
                next_phase(
                    source,
                    next_phase(source, phase, event),
                    InstallEvent::Exists(true),
                ),
            ) == InstallAction::Clear(Place::Aside) && action_in(
                next_phase(
                    source,
                    next_phase(source, phase, event),
                    InstallEvent::Exists(false),
                ),
            ) == InstallAction::Move
            &&& action == InstallAction::Populate && event is Done ==> next
                == InstallAction::MarkExecutable
            &&& action == InstallAction::Move && event is Done ==> next == InstallAction::Clear(
                Place::Aside,
            )
            &&& next == InstallAction::Populate && source is Archive ==> action
                == InstallAction::MakeDirs(Place::Staging)
        }),
{
}

/// An archive is extracted below a root that is made first; a local build is copied, which
/// makes the directories itself.
pub proof fn law_directories_made(source: InstallSource, events: Seq<InstallEvent>)
    requires
        install_trace(source, events),
        install_after(source, events).1 == InstallAction::Populate,
    ensures
        source is Archive <==> was_done(
            source,
            events,
            InstallAction::MakeDirs(Place::Staging),
        ),
        source is Archive <==> was_done(
            source,
            events,
            InstallAction::MakeDirs(Place::Parent),
        ),
{
    lemma_directories_made(source, events);
    assert(install_after(source, events).1 == action_in(install_after(source, events).0));
}

proof fn lemma_directories_made(source: InstallSource, events: Seq<InstallEvent>)
    requires
        install_trace(source, events),
    ensures
        ({
            let parent = was_done(source, events, InstallAction::MakeDirs(Place::Parent));
            let made = was_done(source, events, InstallAction::MakeDirs(Place::Staging));
            match install_after(source, events).0 {
                InstallPhase::MakingParent => source is Archive && !parent && !made,
                InstallPhase::ProbingStaging | InstallPhase::ClearingStaging => (source is Archive
                    <==> parent) && !made,
                InstallPhase::MakingStaging => source is Archive && parent && !made,
                InstallPhase::Populating => (source is Archive <==> parent) && (source is Archive
                    <==> made),
                _ => true,
            }
        }),
    decreases events.len(),
{
    if events.len() > 0 {
        let prior = events.drop_last();
        lemma_trace(source, events);
        lemma_directories_made(source, prior);
        lemma_done(source, events, InstallAction::MakeDirs(Place::Parent));
        lemma_done(source, events, InstallAction::MakeDirs(Place::Staging));
        assert(install_after(source, prior).1 == action_in(install_after(source, prior).0));
    }
}

/// An installation from an archive begins by making the root; after that, and right at the
/// beginning for a local build, it is found out whether something is left over in the
/// staging directory.
pub proof fn law_beginning_of_an_installation()
    ensures
        install_start(InstallSource::Archive).1 == InstallAction::MakeDirs(Place::Parent),
        install_next(
            InstallSource::Archive,
            install_start(InstallSource::Archive).0,
            InstallEvent::Done,
        ).1 == InstallAction::Probe(Place::Staging),
        install_start(InstallSource::Local).1 == InstallAction::Probe(Place::Staging),
{
}

/// Once the staging directory is known to be empty, or has been cleared as far as
/// possible, it is made for an archive, and then filled.
pub proof fn law_filling_follows(source: InstallSource, phase: InstallPhase, event: InstallEvent)
    requires
        answers(phase, event),
        phase is ProbingStaging || phase is ClearingStaging,
        event != InstallEvent::Exists(true),
    ensures
        ({
            let next = install_next(source, phase, event);
            &&& source is Local ==> next.1 == InstallAction::Populate
            &&& source is Archive ==> next.1 == InstallAction::MakeDirs(Place::Staging)
                && install_next(source, next.0, InstallEvent::Done).1 == InstallAction::Populate
        }),
{
}

} // verus!
