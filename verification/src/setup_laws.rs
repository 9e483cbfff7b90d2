//! What holds of every setup, whatever the machine, the release service and the
//! user answer: it asks before it changes anything, it records what it installed,
//! and it ends.

use vstd::prelude::*;
use vstd::utf8::{decode_utf8, valid_utf8};

use crate::common::{package_path, path_joined, tool_path};
use crate::decimal::signed_decimal;
use crate::release::{
    asset_suffix, bundle, default_release, exact_release, highest_at, law_default_is_highest_supported, law_exact_release,
    release_models, sanitized_timestamp, sorted_versions, supported_version, AssetModel, GhRelease, ReleaseModel, VersionInfo, REPO_NAME,
    REPO_OWNER,
};
use crate::setup::{
    after_download, after_install, after_installed, after_listing, after_nightly, after_plugins, after_toolchain, awaited,
    download_of, git_said, listing_address, local_package, looking_up, means_yes, nightly_address, nightly_label, nonempty,
    setup_next, setup_start, toolchain_turn, untested_warning, DownloadOutcome, Fetched, Notice, Phase, SetupAction,
    SetupEvent, SetupOptions, TurnModel,
};
use crate::size::bytes_shown;
use crate::text::{
    ascii_lower, ends_with, law_trimmed, lines, opt_string, same_ignoring_case, starts_with, trimmed, white_space,
};
use crate::version::{
    requested_release, series_shown, versions_joined, ReleaseSpec, Version, MAX_SUPPORTED_MINOR, MIN_SUPPORTED_MINOR,
    RELEASE_TAG,
};

verus! {

/// The turn that a setup has come to after some events.
pub open spec fn setup_after(o: SetupOptions, events: Seq<SetupEvent>) -> TurnModel
    decreases events.len(),
{
    if events.len() == 0 {
        setup_start(o)
    } else {
        setup_next(o, setup_after(o, events.drop_last()).phase, events.last())
    }
}

/// Whether each of the events was waited for when it came.
pub open spec fn setup_trace(o: SetupOptions, events: Seq<SetupEvent>) -> bool
    decreases events.len(),
{
    events.len() == 0 || {
        &&& setup_trace(o, events.drop_last())
        &&& awaited(o, setup_after(o, events.drop_last()).phase, events.last())
    }
}

/// How far a setup has come.
pub open spec fn progress<R, S>(phase: Phase<R, S>) -> nat {
    match phase {
        Phase::LocalPath | Phase::ConfirmUntested(_) => 1,
        Phase::LocalDest | Phase::Nightly | Phase::Listing(_) => 2,
        Phase::ConfirmLocal | Phase::Installed { .. } => 3,
        Phase::LocalSource | Phase::ConfirmReplace { .. } => 4,
        Phase::LocalCopy | Phase::Downloading { .. } => 5,
        Phase::LocalGit | Phase::Installing { .. } => 6,
        Phase::Recording { .. } => 7,
        Phase::Toolchain { .. } => 8,
        Phase::Plugins { .. } => 9,
        Phase::Ended => 10,
    }
}

/// A setup ends after at most nine events.
pub proof fn law_setup_ends(o: SetupOptions, events: Seq<SetupEvent>)
    requires
        setup_trace(o, events),
    ensures
        events.len() <= 9,
{
    lemma_progress(o, events);
}

/// Every event brings a setup forward.
proof fn lemma_progress(o: SetupOptions, events: Seq<SetupEvent>)
    requires
        setup_trace(o, events),
    ensures
        events.len() + 1 <= progress(setup_after(o, events).phase) <= 10,
    decreases events.len(),
{
    if events.len() > 0 {
        lemma_progress(o, events.drop_last());
    }
}

/// The events up to some point of a setup are those of a setup that has not come
/// as far.
proof fn lemma_earlier(o: SetupOptions, events: Seq<SetupEvent>, n: int)
    requires
        setup_trace(o, events),
        0 <= n <= events.len(),
    ensures
        setup_trace(o, events.take(n)),
        progress(setup_after(o, events.take(n)).phase) + (events.len() - n) <= progress(
            setup_after(o, events).phase,
        ),
    decreases events.len(),
{
    if n < events.len() {
        lemma_earlier(o, events.drop_last(), n);
        assert(events.drop_last().take(n) == events.take(n));
        lemma_progress(o, events.drop_last());
    } else {
        assert(events.take(n) == events);
    }
}

/// With `--yes` the user is never asked anything.
pub proof fn law_yes_never_asks(o: SetupOptions, events: Seq<SetupEvent>)
    requires
        o.yes,
        setup_trace(o, events),
    ensures
        !(setup_after(o, events).action is Ask),
    decreases events.len(),
{
    if events.len() > 0 {
        law_yes_never_asks(o, events.drop_last());
        lemma_asks(o, events.drop_last());
    }
}

/// A setup waits for an answer exactly when it has asked a question.
proof fn lemma_asks(o: SetupOptions, events: Seq<SetupEvent>)
    ensures
        setup_after(o, events).action is Ask <==> asking(setup_after(o, events).phase),
    decreases events.len(),
{
    if events.len() > 0 {
        lemma_asks(o, events.drop_last());
    }
}

/// Whether a phase waits for the answer to a question.
pub open spec fn asking<R, S>(phase: Phase<R, S>) -> bool {
    phase is ConfirmLocal || phase is ConfirmUntested || phase is ConfirmReplace
}

/// Whether an action changes what is installed.
pub open spec fn changes<S, B>(action: SetupAction<S, B>) -> bool {
    action is InstallArchive || action is CopyPackage || action is Record || action is BuildPlugins
}

/// What changes the installation comes late in a setup.
proof fn lemma_changes_late(o: SetupOptions, events: Seq<SetupEvent>)
    requires
        setup_trace(o, events),
        changes(setup_after(o, events).action),
    ensures
        progress(setup_after(o, events).phase) >= 5,
    decreases events.len(),
{
    if events.len() > 0 {
        lemma_progress(o, events.drop_last());
    }
}

/// A user who declines is left with what was there: the setup ends with exit code
/// 0, and up to then it has changed nothing.
pub proof fn law_declining_changes_nothing(
    o: SetupOptions,
    events: Seq<SetupEvent>,
    answer: SetupEvent,
    n: int,
)
    requires
        setup_trace(o, events),
        setup_after(o, events).action is Ask,
        answer is Answer,
        !means_yes(answer->Answer_0@),
        0 <= n <= events.len(),
    ensures
        setup_trace(o, events.push(answer)),
        setup_after(o, events.push(answer)).phase is Ended,
        setup_after(o, events.push(answer)).action == SetupAction::<Seq<char>, Seq<u8>>::Exit(0),
        !changes(setup_after(o, events.take(n)).action),
{
    let all = events.push(answer);
    assert(all.drop_last() == events);
    lemma_asks(o, events);
    lemma_asked_in_mode(o, events);
    lemma_earlier(o, events, n);
    if changes(setup_after(o, events.take(n)).action) {
        lemma_changes_late(o, events.take(n));
    }
}

/// The phases of a local setup come only where a local build was asked for.
proof fn lemma_asked_in_mode(o: SetupOptions, events: Seq<SetupEvent>)
    requires
        setup_trace(o, events),
    ensures
        local_phase(setup_after(o, events).phase) ==> o.local is Some,
    decreases events.len(),
{
    if events.len() > 0 {
        lemma_asked_in_mode(o, events.drop_last());
    }
}

/// Whether a phase belongs to the setup from a local build.
pub open spec fn local_phase<R, S>(phase: Phase<R, S>) -> bool {
    phase is LocalPath || phase is LocalDest || phase is ConfirmLocal || phase is LocalSource
        || phase is LocalCopy || phase is LocalGit
}

/// Whether the user agreed to the question that event `i` answers.
pub open spec fn agreed_at(o: SetupOptions, events: Seq<SetupEvent>, i: int) -> bool {
    &&& 0 <= i < events.len()
    &&& setup_after(o, events.take(i)).action is Ask
    &&& events[i] is Answer
    &&& means_yes(events[i]->Answer_0@)
}

/// Whether a release was asked for that this program is not tested with.
pub open spec fn untested(o: SetupOptions) -> bool {
    o.local is None && (requested_release(opt_string(o.release)) matches Some(spec)
        && untested_warning(spec) is Some)
}

/// Without `--yes`, an untested release is looked up, downloaded and installed
/// only after the user agreed to the warning: up to then there is nothing but the
/// question, and the end of the setup.
pub proof fn law_untested_only_if_agreed(o: SetupOptions, events: Seq<SetupEvent>)
    requires
        setup_trace(o, events),
        untested(o),
        !o.yes,
        !(setup_after(o, events).action is Ask),
        !(setup_after(o, events).action is Exit),
    ensures
        agreed_at(o, events, 0),
        setup_after(o, events.take(0)).phase is ConfirmUntested,
{
    lemma_earlier(o, events, 0);
    assert(events.take(0) == Seq::<SetupEvent>::empty());
    assert(events.len() > 0);
    lemma_earlier(o, events, 1);
    let first = events.take(1);
    assert(first.drop_last() == events.take(0));
    assert(first.last() == events[0]);
    if !means_yes(events[0]->Answer_0@) {
        assert(setup_after(o, first).phase is Ended);
        if events.len() > 1 {
            lemma_progress(o, events);
        }
        assert(events.take(1) == events);
    }
}

/// Whether event `i` tells that something is installed already.
pub open spec fn found_installed_at(o: SetupOptions, events: Seq<SetupEvent>, i: int) -> bool {
    &&& 0 <= i < events.len()
    &&& match setup_after(o, events.take(i)).phase {
        Phase::Installed { .. } => events[i]->Installed_0 is Some,
        Phase::LocalDest => events[i]->Exists_0,
        _ => false,
    }
}

/// Without `--yes`, what is installed already is replaced only after the user
/// agreed to it.
pub proof fn law_replaced_only_if_agreed(o: SetupOptions, events: Seq<SetupEvent>, i: int)
    requires
        setup_trace(o, events),
        !o.yes,
        found_installed_at(o, events, i),
        changes(setup_after(o, events).action),
    ensures
        agreed_at(o, events, i + 1),
{
    lemma_earlier(o, events, i);
    lemma_earlier(o, events, i + 1);
    let found = events.take(i + 1);
    assert(found.drop_last() == events.take(i));
    assert(found.last() == events[i]);
    assert(setup_after(o, found).action is Ask);
    if i + 1 == events.len() {
        assert(found == events);
    } else {
        lemma_earlier(o, events, i + 2);
        let answered = events.take(i + 2);
        assert(answered.drop_last() == found);
        assert(answered.last() == events[i + 1]);
        lemma_asks(o, found);
        if !means_yes(events[i + 1]->Answer_0@) {
            assert(setup_after(o, answered).phase is Ended);
            lemma_progress(o, events);
            assert(answered == events);
        }
    }
}

/// Whether a release is the highest supported one in a list, at version `v`.
pub open spec fn is_highest(releases: Seq<ReleaseModel>, v: Version, release: ReleaseModel) -> bool {
    exists|k: int| highest_at(releases, k, v, release)
}

/// Whether what the release service sent gives this release, to be recorded under
/// this name, as what was asked for: the nightly that it sent; the first release in
/// its list with the exact version; or, by default, the highest supported one there.
pub open spec fn gives(
    spec: ReleaseSpec,
    reply: SetupEvent,
    release: ReleaseModel,
    label: Seq<char>,
) -> bool {
    match spec {
        ReleaseSpec::Nightly => {
            &&& reply matches SetupEvent::Nightly(Fetched::Got(sent))
            &&& release == sent@
            &&& label == nightly_label(release)
        },
        ReleaseSpec::Exact(want) => {
            &&& reply matches SetupEvent::Releases(Fetched::Got(list))
            &&& exact_release(release_models(list@), want) == Some(release)
            &&& Version::parsed(release.tag_name) == Some(want)
            &&& label == want.shown()
        },
        ReleaseSpec::Default => {
            &&& reply matches SetupEvent::Releases(Fetched::Got(list))
            &&& supported_version(release) matches Some(v)
            &&& is_highest(release_models(list@), v, release)
            &&& label == v.shown()
        },
    }
}

/// Whether one of some events gives this release as what was asked for.
pub open spec fn given(
    spec: ReleaseSpec,
    events: Seq<SetupEvent>,
    release: ReleaseModel,
    label: Seq<char>,
) -> bool {
    exists|i: int| 0 <= i < events.len() && gives(spec, #[trigger] events[i], release, label)
}

/// Whether what a phase is about, after some events, is what was asked for.
pub open spec fn on_request(
    o: SetupOptions,
    events: Seq<SetupEvent>,
    phase: Phase<ReleaseModel, Seq<char>>,
) -> bool {
    let asked = requested_release(opt_string(o.release));
    match phase {
        Phase::ConfirmUntested(spec) => asked == Some(spec),
        Phase::Nightly => asked == Some(ReleaseSpec::Nightly),
        Phase::Listing(Some(want)) => asked == Some(ReleaseSpec::Exact(want)),
        Phase::Listing(None) => asked == Some(ReleaseSpec::Default),
        Phase::Installed { release, label }
        | Phase::ConfirmReplace { release, label, .. }
        | Phase::Downloading { release, label, .. }
        | Phase::Installing { release, label } => asked is Some && given(
            asked->0,
            events,
            release,
            label,
        ),
        _ => true,
    }
}

/// At every point a setup is about the release that was asked for, out of what the
/// release service sent. Where none was asked for, that is the highest supported
/// release in the list that came back.
pub proof fn law_installs_what_was_requested(o: SetupOptions, events: Seq<SetupEvent>)
    requires
        setup_trace(o, events),
    ensures
        on_request(o, events, setup_after(o, events).phase),
    decreases events.len(),
{
    if events.len() > 0 {
        let prior = events.drop_last();
        let n = prior.len() as int;
        law_installs_what_was_requested(o, prior);
        let asked = requested_release(opt_string(o.release));
        assert(events[n] == events.last());
        match setup_after(o, prior).phase {
            Phase::Nightly => {
                if let Fetched::Got(sent) = events.last()->Nightly_0 {
                    assert(gives(asked->0, events[n], sent@, nightly_label(sent@)));
                }
            },
            Phase::Listing(want) => {
                if let Fetched::Got(list) = events.last()->Releases_0 {
                    lemma_listing_gives(want, list);
                    if let Phase::Installed { release, label } = setup_after(o, events).phase {
                        assert(gives(asked->0, events[n], release, label));
                    }
                }
            },
            Phase::Installed { release, label }
            | Phase::ConfirmReplace { release, label, .. }
            | Phase::Downloading { release, label, .. } => {
                lemma_given_earlier(asked->0, events, release, label);
            },
            _ => {},
        }
    }
}

/// What was given by an earlier event is given.
proof fn lemma_given_earlier(
    spec: ReleaseSpec,
    events: Seq<SetupEvent>,
    release: ReleaseModel,
    label: Seq<char>,
)
    requires
        events.len() > 0,
        given(spec, events.drop_last(), release, label),
    ensures
        given(spec, events, release, label),
{
    let prior = events.drop_last();
    let i = choose|i: int|
        0 <= i < prior.len() && gives(spec, #[trigger] prior[i], release, label);
    assert(events[i] == prior[i]);
}

/// What is resolved from a list of releases is what the list gives.
proof fn lemma_listing_gives(want: Option<Version>, list: Vec<GhRelease>)
    ensures
        ({
            let reply = Fetched::Got(list);
            let spec = match want {
                Some(v) => ReleaseSpec::Exact(v),
                None => ReleaseSpec::Default,
            };
            after_listing(want, reply).phase matches Phase::Installed { release, label } ==> gives(
                spec,
                SetupEvent::Releases(reply),
                release,
                label,
            )
        }),
{
    let releases = release_models(list@);
    match want {
        Some(v) => {
            law_exact_release(releases, v);
        },
        None => {
            law_default_is_highest_supported(releases);
            if default_release(releases) is Some {
                let choice = default_release(releases)->0;
                let k = choose|k: int| highest_at(releases, k, choice.0, choice.1);
                assert(highest_at(releases, k, choice.0, choice.1));
                assert(is_highest(releases, choice.0, choice.1));
                assert(supported_version(choice.1) == Some(choice.0));
            }
        },
    }
}

/// A release is recorded only after its own bundle for this machine was downloaded
/// and put in place: the very bytes that arrived. What is recorded is that release.
pub proof fn law_records_what_was_installed(o: SetupOptions, events: Seq<SetupEvent>)
    requires
        setup_trace(o, events),
        setup_after(o, events).action is Record,
        o.local is None,
    ensures
        events.len() >= 2,
        ({
            let record = setup_after(o, events).action;
            let installing = setup_after(o, events.drop_last());
            let downloading = setup_after(o, events.drop_last().drop_last());
            &&& events[events.len() - 2] matches SetupEvent::Downloaded(DownloadOutcome::Got(bytes))
            &&& installing.action == SetupAction::<Seq<char>, Seq<u8>>::InstallArchive(bytes@)
            &&& downloading.phase matches Phase::Downloading { release, label, asset }
            &&& record->release_id == release.id
            &&& record->release_tag == release.tag_name
            &&& record->Record_name == label
            &&& asset_suffix(o.os@, o.arch@) matches Some(suffix)
            &&& bundle(release.assets, suffix) matches Some(found)
            &&& downloading.action == download_of(found)
        }),
{
    lemma_asked_in_mode(o, events.drop_last());
    lemma_installing(o, events.drop_last());
    assert(events.drop_last().last() == events[events.len() - 2]);
    lemma_downloading(o, events.drop_last().drop_last());
}

/// An update is detected by what was recorded: a setup that comes upon the release
/// that the last one recorded says that it is up to date, and one that comes upon
/// another says that it will be replaced.
pub proof fn law_recorded_release_is_up_to_date(
    o: SetupOptions,
    release: ReleaseModel,
    label: Seq<char>,
    info: VersionInfo,
    next: ReleaseModel,
    next_label: Seq<char>,
)
    requires
        info.release_id == after_install(o, release, label).action->release_id,
    ensures
        after_installed(o, next, next_label, Some(info)).notices.len() > 0,
        after_installed(o, next, next_label, Some(info)).notices[0] is UpToDate <==> next.id
            == release.id,
        after_installed(o, next, next_label, Some(info)).notices[0] is WillReplace <==> next.id
            != release.id,
{
}

/// The archive is put in place when its download is complete.
proof fn lemma_installing(o: SetupOptions, events: Seq<SetupEvent>)
    requires
        setup_trace(o, events),
        setup_after(o, events).phase is Installing,
    ensures
        events.len() > 0,
        setup_trace(o, events.drop_last()),
        events.last() matches SetupEvent::Downloaded(DownloadOutcome::Got(bytes))
            && setup_after(o, events).action == SetupAction::<Seq<char>, Seq<u8>>::InstallArchive(
            bytes@,
        ),
        setup_after(o, events.drop_last()).phase is Downloading,
        setup_after(o, events).phase->Installing_release == setup_after(
            o,
            events.drop_last(),
        ).phase->Downloading_release,
        setup_after(o, events).phase->Installing_label == setup_after(
            o,
            events.drop_last(),
        ).phase->Downloading_label,
{
}

/// What is downloaded is the bundle of the release.
proof fn lemma_downloading(o: SetupOptions, events: Seq<SetupEvent>)
    requires
        setup_trace(o, events),
        setup_after(o, events).phase is Downloading,
    ensures
        ({
            let t = setup_after(o, events);
            &&& asset_suffix(o.os@, o.arch@) matches Some(suffix)
            &&& bundle(t.phase->Downloading_release.assets, suffix) matches Some(found)
            &&& t.action == download_of(found)
        }),
{
}

// ── how a setup ends ──────────────────────────────────────────────────────────

/// What means yes, letter by letter: one letter or three, between white space, and
/// nothing else does.
pub proof fn law_what_means_yes(front: Seq<char>, s: Seq<char>, back: Seq<char>)
    requires
        forall|i: int| 0 <= i < front.len() ==> white_space(#[trigger] front[i]),
        forall|i: int| 0 <= i < back.len() ==> white_space(#[trigger] back[i]),
        s.len() > 0 ==> !white_space(s[0]) && !white_space(s.last()),
    ensures
        means_yes(front + s + back) <==> (s.len() == 1 || (s.len() == 3 && (s[1] == 'e' || s[1]
            == 'E') && (s[2] == 's' || s[2] == 'S'))) && (s[0] == 'y' || s[0] == 'Y'),
{
    law_trimmed(front, s, back);
    reveal_strlit("y");
    reveal_strlit("yes");
    let (one, three) = ("y"@, "yes"@);
    assert(one.len() == 1 && one[0] == 'y');
    assert(three.len() == 3 && three[0] == 'y' && three[1] == 'e' && three[2] == 's');
    if same_ignoring_case(s, one) {
        assert(ascii_lower(s[0]) == ascii_lower(one[0]));
    }
    if same_ignoring_case(s, three) {
        assert(ascii_lower(s[0]) == ascii_lower(three[0]));
        assert(ascii_lower(s[1]) == ascii_lower(three[1]));
        assert(ascii_lower(s[2]) == ascii_lower(three[2]));
    }
}

/// Whether what an event tells keeps a setup from going on.
pub open spec fn hinders(
    o: SetupOptions,
    phase: Phase<ReleaseModel, Seq<char>>,
    event: SetupEvent,
) -> bool {
    match phase {
        Phase::LocalPath | Phase::LocalSource => event == SetupEvent::Exists(false),
        Phase::Nightly => !(event->Nightly_0 is Got),
        Phase::Listing(Some(want)) => !(event->Releases_0 is Got) || exact_release(
            release_models(event->Releases_0->Got_0@),
            want,
        ) is None,
        Phase::Listing(None) => !(event->Releases_0 is Got) || default_release(
            release_models(event->Releases_0->Got_0@),
        ) is None,
        Phase::Installed { release, .. } => (o.yes || event->Installed_0 is None) && !available(
            o,
            release,
        ),
        Phase::ConfirmReplace { release, .. } => means_yes(event->Answer_0@) && !available(
            o,
            release,
        ),
        Phase::Downloading { .. } => !(event->Downloaded_0 is Got),
        Phase::Toolchain { .. } => match event->Toolchain_0 {
            Ok(out) => out.code != Some(0i32),
            Err(_) => true,
        },
        Phase::Plugins { .. } => event->Plugins_0 != Ok::<Option<i32>, String>(Some(0i32)),
        _ => false,
    }
}

/// Whether a release has a bundle for this machine.
pub open spec fn available(o: SetupOptions, release: ReleaseModel) -> bool {
    match asset_suffix(o.os@, o.arch@) {
        Some(suffix) => bundle(release.assets, suffix) is Some,
        None => false,
    }
}

/// A setup fails exactly where something keeps it from going on, exits early exactly where
/// the user declines, and otherwise goes on; it never asks about an installation where
/// there is none.
pub proof fn law_fails_only_for_a_cause(
    o: SetupOptions,
    phase: Phase<ReleaseModel, Seq<char>>,
    event: SetupEvent,
)
    requires
        awaited(o, phase, event),
    ensures
        ({
            let next = setup_next(o, phase, event);
            let no = asking(phase) && !means_yes(event->Answer_0@);
            &&& next.action is Fail <==> hinders(o, phase, event)
            &&& next.action is Exit <==> no
            &&& next.phase is Ended <==> hinders(o, phase, event) || no || phase is Plugins
            &&& next.action is Finish <==> phase is Plugins && !hinders(o, phase, event)
            &&& next.action is Ask <==> !o.yes && (phase is LocalDest && event
                == SetupEvent::Exists(true) || phase is Installed && event->Installed_0 is Some)
        }),
{
}

/// A setup without a local build begins by looking the release up, unless it is untested,
/// which is warned of, or unknown, which fails. With a local build it begins by looking for
/// that, whatever release is named.
pub proof fn law_setup_begins(o: SetupOptions)
    ensures
        ({
            let first = setup_start(o);
            let asked = requested_release(opt_string(o.release));
            &&& o.local matches Some(path) ==> first.action == SetupAction::<
                Seq<char>,
                Seq<u8>,
            >::CheckPath(path@)
            &&& first.action is Fail <==> o.local is None && asked is None
            &&& first.action is Ask <==> untested(o) && !o.yes
            &&& untested(o) ==> exists|i: int|
                0 <= i < first.notices.len() && #[trigger] first.notices[i] == Notice::Untested(
                    untested_warning(asked->0)->0,
                )
            &&& !untested(o) ==> forall|i: int|
                0 <= i < first.notices.len() ==> !(#[trigger] first.notices[i] is Untested)
            &&& o.local is None && asked is Some && !(first.action is Ask) ==> (
            first.action is FetchNightly <==> asked == Some(ReleaseSpec::Nightly)) && (
            first.action is ListReleases <==> asked != Some(ReleaseSpec::Nightly))
        }),
{
    let first = setup_start(o);
    if untested(o) {
        let warning = untested_warning(requested_release(opt_string(o.release))->0)->0;
        assert(first.notices[3] == Notice::Untested(warning));
    }
}

/// Which releases are warned of: the nightly, and the versions outside the window. A
/// warning names the version.
pub proof fn law_untested_releases(v: Version)
    ensures
        untested_warning(ReleaseSpec::Default) is None,
        untested_warning(ReleaseSpec::Nightly) is Some,
        untested_warning(ReleaseSpec::Exact(v)) is Some <==> !v.supported(),
        !v.supported() ==> starts_with(
            untested_warning(ReleaseSpec::Exact(v))->0,
            "Release "@ + v.shown() + " "@,
        ),
{
    if !v.supported() {
        let text = untested_warning(ReleaseSpec::Exact(v))->0;
        let head = "Release "@ + v.shown() + " "@;
        reveal_strlit(" ");
        reveal_strlit(" is outside the supported range ");
        let (a, b) = ("Release "@ + v.shown(), " is outside the supported range "@);
        assert(b[0] == ' ');
        assert(text.len() >= a.len() + b.len());
        assert(text.take(head.len() as int) == head);
    }
}

/// A setup that agreed to go on does go on: it looks up what was asked for, or takes up
/// the replacement where it was interrupted to ask.
pub proof fn law_agreeing_goes_on(
    o: SetupOptions,
    spec: ReleaseSpec,
    release: ReleaseModel,
    label: Seq<char>,
    same: bool,
    yes: SetupEvent,
    info: VersionInfo,
)
    requires
        yes is Answer,
        means_yes(yes->Answer_0@),
    ensures
        setup_next(o, Phase::ConfirmUntested(spec), yes).action == looking_up(spec, seq![]).action,
        setup_next(o, Phase::ConfirmUntested(spec), yes).phase == looking_up(spec, seq![]).phase,
        setup_next(o, Phase::ConfirmReplace { release, label, same }, yes).action
            == after_installed(o, release, label, None).action,
        setup_next(o, Phase::ConfirmReplace { release, label, same }, yes).phase
            == after_installed(o, release, label, None).phase,
        setup_next(o, Phase::ConfirmLocal, yes).action == setup_next(
            o,
            Phase::LocalDest,
            SetupEvent::Exists(false),
        ).action,
        o.yes ==> after_installed(o, release, label, Some(info)).action == after_installed(
            o,
            release,
            label,
            None,
        ).action,
{
}

/// What comes before what: a setup finishes right after the plugins were built, these are
/// built right after the toolchain check of the installed program succeeded, that comes
/// right after the installation was recorded, and it is recorded right after it was put in
/// place and, for a local build, git was asked about it.
pub proof fn law_order_of_a_setup(o: SetupOptions, events: Seq<SetupEvent>)
    requires
        setup_trace(o, events),
    ensures
        ({
            let prior = setup_after(o, events.drop_last()).action;
            match setup_after(o, events).action {
                SetupAction::Finish => events.len() > 0 && prior is BuildPlugins && events.last()
                    == SetupEvent::Plugins(Ok(Some(0i32))),
                SetupAction::BuildPlugins => events.len() > 0 && prior is CheckToolchain && (
                events.last() matches SetupEvent::Toolchain(Ok(out)) && out.code == Some(0i32)),
                SetupAction::CheckToolchain(program) => events.len() > 0 && prior is Record
                    && events.last() is Done && program == tool_path(
                    package_path(o.base@),
                    "obol"@,
                ),
                SetupAction::Record { .. } => events.len() > 0 && (if o.local is None {
                    prior is InstallArchive && events.last() is Done
                } else {
                    prior is ReadGit
                }),
                SetupAction::ReadGit(_) => events.len() > 0 && o.local is Some && prior
                    is CopyPackage && events.last() is Done,
                _ => true,
            }
        }),
{
    if events.len() > 0 {
        lemma_modes(o, events.drop_last());
        lemma_action_of(o, events.drop_last());
    }
}

/// In a phase there is one kind of thing to do.
proof fn lemma_action_of(o: SetupOptions, events: Seq<SetupEvent>)
    requires
        setup_trace(o, events),
    ensures
        ({
            let t = setup_after(o, events);
            match t.phase {
                Phase::LocalGit => t.action is ReadGit,
                Phase::LocalCopy => t.action is CopyPackage,
                Phase::Installing { .. } => t.action is InstallArchive,
                Phase::Recording { .. } => t.action is Record && events.len() > 0,
                Phase::Toolchain { .. } => t.action == SetupAction::<
                    Seq<char>,
                    Seq<u8>,
                >::CheckToolchain(tool_path(package_path(o.base@), "obol"@)) && events.len() > 0,
                Phase::Plugins { .. } => t.action is BuildPlugins && events.len() > 0,
                _ => true,
            }
        }),
    decreases events.len(),
{
    if events.len() > 0 {
        lemma_action_of(o, events.drop_last());
    }
}

/// A setup is either from a local build or of a release, from beginning to end.
proof fn lemma_modes(o: SetupOptions, events: Seq<SetupEvent>)
    requires
        setup_trace(o, events),
    ensures
        match setup_after(o, events).phase {
            Phase::LocalPath
            | Phase::LocalDest
            | Phase::ConfirmLocal
            | Phase::LocalSource
            | Phase::LocalCopy
            | Phase::LocalGit => o.local is Some,
            Phase::ConfirmUntested(_)
            | Phase::Nightly
            | Phase::Listing(_)
            | Phase::Installed { .. }
            | Phase::ConfirmReplace { .. }
            | Phase::Downloading { .. }
            | Phase::Installing { .. } => o.local is None,
            _ => true,
        },
    decreases events.len(),
{
    if events.len() > 0 {
        lemma_modes(o, events.drop_last());
    }
}

// ── local builds ──────────────────────────────────────────────────────────────

/// What is copied from a local build is its package, which was found to be there; and
/// nothing is downloaded for it.
pub proof fn law_local_setup(o: SetupOptions, path: Seq<char>, events: Seq<SetupEvent>)
    requires
        setup_trace(o, events),
        o.local is Some,
        o.local->0@ == path,
        path.len() > 0,
        path.last() != '/',
    ensures
        setup_after(o, events).action matches SetupAction::CopyPackage(from) ==> from == path
            + "/packages/soteria-rust"@ && setup_after(o, events.drop_last()).action
            == SetupAction::<Seq<char>, Seq<u8>>::CheckPath(from) && events.last()
            == SetupEvent::Exists(true),
        setup_after(o, events).action matches SetupAction::ReadGit(at) ==> at == path,
        !(setup_after(o, events).action is InstallArchive),
        !(setup_after(o, events).action is Download),
{
    lemma_local_package(path);
    if events.len() > 0 {
        lemma_modes(o, events.drop_last());
        lemma_local_source(o, path, events.drop_last());
    }
}

/// What is recorded of a local build is what git said of it.
pub proof fn law_local_recorded(o: SetupOptions, events: Seq<SetupEvent>)
    requires
        setup_trace(o, events),
        o.local is Some,
        setup_after(o, events).action is Record,
    ensures
        events.len() > 0,
        events.last() is Git,
        ({
            let record = setup_after(o, events).action;
            let commit = git_said(events.last()->Git_commit);
            &&& record->release_tag == "local:"@ + commit
            &&& record->published_at == git_said(events.last()->Git_date)
            &&& record->release_id == 0
            &&& record->Record_name == "local-"@ + commit
        }),
{
    if events.len() > 0 {
        lemma_modes(o, events.drop_last());
    }
}

proof fn lemma_local_package(path: Seq<char>)
    requires
        path.len() > 0,
        path.last() != '/',
    ensures
        local_package(path) == path + "/packages/soteria-rust"@,
{
    reveal_strlit("/");
    reveal_strlit("packages");
    reveal_strlit("soteria-rust");
    reveal_strlit("/packages/soteria-rust");
    let packages = path_joined(path, "packages"@);
    assert(packages == path + "/"@ + "packages"@);
    assert(packages.last() == 's');
    assert(local_package(path) == packages + "/"@ + "soteria-rust"@);
    assert(packages + "/"@ + "soteria-rust"@ == path + "/packages/soteria-rust"@);
}

proof fn lemma_local_source(o: SetupOptions, path: Seq<char>, events: Seq<SetupEvent>)
    requires
        setup_trace(o, events),
        o.local is Some,
        o.local->0@ == path,
    ensures
        setup_after(o, events).phase is LocalSource ==> setup_after(o, events).action == SetupAction::<Seq<char>, Seq<u8>>::CheckPath(
            local_package(path),
        ),
{
}

/// What git said is taken without outer white space; it is unknown exactly where git did
/// not run, or did not say it in UTF-8.
pub proof fn law_git_said(output: Vec<u8>)
    ensures
        git_said(None) == "unknown"@,
        valid_utf8(output@) ==> git_said(Some(output)) == trimmed(decode_utf8(output@)),
        !valid_utf8(output@) ==> git_said(Some(output)) == git_said(None),
{
}

// ── what is recorded and shown ────────────────────────────────────────────────

/// What is recorded of a release is its own tag, date and number; a release without a date
/// is recorded with none.
pub proof fn law_release_recorded(o: SetupOptions, release: ReleaseModel, label: Seq<char>)
    ensures
        ({
            let record = after_install(o, release, label).action;
            &&& record is Record
            &&& record->release_tag == release.tag_name
            &&& record->release_id == release.id
            &&& record->Record_name == label
            &&& release.published_at matches Some(p) ==> record->published_at == p
            &&& release.published_at is None ==> record->published_at.len() == 0
        }),
{
}

/// A nightly is named after its stamp, so that two of them with different stamps have
/// different names.
pub proof fn law_nightly_names(a: ReleaseModel, b: ReleaseModel)
    ensures
        starts_with(nightly_label(a), "nightly-"@),
        a.published_at is None ==> nightly_label(a) == "nightly-unknown"@,
        a.published_at is Some && b.published_at is Some ==> (nightly_label(a) == nightly_label(b)
            <==> sanitized_timestamp(a.published_at->0) == sanitized_timestamp(b.published_at->0)),
{
    reveal_strlit("nightly-");
    reveal_strlit("unknown");
    reveal_strlit("nightly-unknown");
    let (x, y) = (nightly_label(a), nightly_label(b));
    assert(x.take(8) == "nightly-"@);
    assert("nightly-"@ + "unknown"@ == "nightly-unknown"@);
    if a.published_at is Some && b.published_at is Some {
        assert(x.skip(8) == sanitized_timestamp(a.published_at->0));
        assert(y.skip(8) == sanitized_timestamp(b.published_at->0));
    }
}

/// Lines are kept in order where there is something on them, and dropped where there is
/// nothing.
pub proof fn law_nonempty_lines(a: Seq<Seq<char>>, line: Seq<char>, b: Seq<Seq<char>>)
    ensures
        nonempty(a + seq![line] + b) == if line.len() > 0 {
            nonempty(a).push(line) + nonempty(b)
        } else {
            nonempty(a) + nonempty(b)
        },
    decreases b.len(),
{
    let all = a + seq![line] + b;
    if b.len() == 0 {
        assert(all.drop_last() == a);
        assert(all.last() == line);
        assert(nonempty(b) == Seq::<Seq<char>>::empty());
        assert(nonempty(a) + nonempty(b) == nonempty(a));
        assert(nonempty(a).push(line) + nonempty(b) == nonempty(a).push(line));
    } else {
        law_nonempty_lines(a, line, b.drop_last());
        assert(all.drop_last() == a + seq![line] + b.drop_last());
        assert(all.last() == b.last());
        if b.last().len() > 0 {
            let front = nonempty(b.drop_last());
            assert((nonempty(a) + front).push(b.last()) == nonempty(a) + front.push(b.last()));
            assert((nonempty(a).push(line) + front).push(b.last()) == nonempty(a).push(line)
                + front.push(b.last()));
        }
    }
}

/// The last line that the toolchain check prints is the path of the toolchain, and every
/// line before it is shown as progress, in order.
pub proof fn law_toolchain_output(
    name: Option<Seq<char>>,
    stdout: Seq<char>,
    stderr: Seq<char>,
    i: int,
)
    requires
        nonempty(lines(stdout)).len() > 0,
    ensures
        ({
            let said = nonempty(lines(stdout));
            let t = toolchain_turn(name, Some(0i32), stdout, stderr);
            let k = said.len() as int;
            &&& t.notices.len() == k + 1
            &&& 0 <= i < k - 1 ==> t.notices[i] == Notice::Progress(said[i])
            &&& t.notices[k - 1] == Notice::ToolchainFound(said[k - 1])
            &&& t.notices[k] == Notice::<Seq<char>>::BuildingPlugins
            &&& t.action is BuildPlugins
        }),
{
}

/// The message for a failed toolchain check has the exit code in it, and the standard
/// error of the check where there is any.
pub proof fn law_toolchain_failure(
    name: Option<Seq<char>>,
    code: i32,
    stdout: Seq<char>,
    stderr: Seq<char>,
)
    requires
        code != 0,
    ensures
        ({
            let t = toolchain_turn(name, Some(code), stdout, stderr);
            let head = "Toolchain check failed (exit "@ + signed_decimal(code as int) + ")"@;
            &&& trimmed(stderr).len() > 0 ==> t.action == SetupAction::<Seq<char>, Seq<u8>>::Fail(
                head + ": "@ + trimmed(stderr),
            )
            &&& trimmed(stderr).len() == 0 ==> t.action == SetupAction::<Seq<char>, Seq<u8>>::Fail(
                head,
            )
            &&& toolchain_turn(name, None, stdout, stderr) == toolchain_turn(
                name,
                Some(1i32),
                stdout,
                stderr,
            )
        }),
{
    let head = "Toolchain check failed (exit "@ + signed_decimal(code as int) + ")"@;
    assert(head + (": "@ + trimmed(stderr)) == head + ": "@ + trimmed(stderr));
    assert(head + Seq::<char>::empty() == head);
}

/// Every failure says why: the message ends with the reason that was given, or has the
/// status in it that came back.
pub proof fn law_failures_say_why(
    reason: String,
    want: Option<Version>,
    release: ReleaseModel,
    label: Seq<char>,
    asset: Seq<char>,
    name: Option<Seq<char>>,
)
    ensures
        fails_with(after_nightly(Fetched::Unreachable(reason)), reason@),
        fails_with(after_nightly(Fetched::Garbled(reason)), reason@),
        fails_with(after_listing(want, Fetched::Unreachable(reason)), reason@),
        fails_with(after_listing(want, Fetched::Garbled(reason)), reason@),
        fails_with(after_download(release, label, asset, DownloadOutcome::Failed(reason)), reason@),
        fails_with(
            after_download(release, label, asset, DownloadOutcome::Refused(reason)),
            reason@,
        ),
        fails_with(after_download(release, label, asset, DownloadOutcome::Broken(reason)), reason@),
        fails_with(after_toolchain(name, Err(reason)), reason@),
        fails_with(after_plugins(name, Err(reason)), reason@),
        fails_naming(after_nightly(Fetched::Refused(reason)), "GitHub API returned "@, reason@),
        fails_naming(
            after_listing(want, Fetched::Refused(reason)),
            "GitHub API returned "@,
            reason@,
        ),
{
    let e = reason@;
    lemma_ends("Failed to reach GitHub API: "@, e);
    lemma_ends("Failed to parse GitHub release response: "@, e);
    lemma_ends("Failed to parse GitHub releases response: "@, e);
    lemma_ends("Download failed: "@, e);
    lemma_ends("Download returned HTTP "@, e);
    lemma_ends("Error reading download: "@, e);
    lemma_ends("Failed to run obol: "@, e);
    lemma_ends("Failed to run soteria-rust to build plugins: "@, e);
    let head = "GitHub API returned "@ + e;
    let a = after_nightly(Fetched::Refused(reason)).action->Fail_0;
    assert(a.take(head.len() as int) == head);
    let b = after_listing(want, Fetched::Refused(reason)).action->Fail_0;
    assert(b.take(head.len() as int) == head);
}

proof fn lemma_ends(front: Seq<char>, back: Seq<char>)
    ensures
        ends_with(front + back, back),
{
    let s = front + back;
    assert(s.skip(s.len() - back.len()) == back);
}

/// Whether a turn ends the setup with a message that ends with this reason.
pub open spec fn fails_with(t: TurnModel, reason: Seq<char>) -> bool {
    t.phase is Ended && t.action is Fail && ends_with(t.action->Fail_0, reason)
}

/// Whether a turn ends the setup with a message that begins with this and this status.
pub open spec fn fails_naming(t: TurnModel, front: Seq<char>, status: Seq<char>) -> bool {
    t.phase is Ended && t.action is Fail && starts_with(t.action->Fail_0, front + status)
}

/// A failed plugin build is told by its exit code, and one that a signal ended does not
/// pass for a success.
pub proof fn law_plugin_failure(name: Option<Seq<char>>, code: i32)
    ensures
        code != 0 ==> after_plugins(name, Ok(Some(code))).action == SetupAction::<
            Seq<char>,
            Seq<u8>,
        >::Fail("Building plugins failed (exit "@ + signed_decimal(code as int) + ")"@),
        after_plugins(name, Ok(None)) == after_plugins(name, Ok(Some(1i32))),
        after_plugins(name, Ok(Some(0i32))).notices.contains(Notice::Success(name)),
{
    assert(after_plugins(name, Ok(Some(0i32))).notices[2] == Notice::Success(name));
}

/// What is shown on the way: the release that was found and when it was published, the
/// version that was chosen, and what was downloaded and how large it is.
pub proof fn law_progress_is_shown(
    o: SetupOptions,
    release: GhRelease,
    list: Vec<GhRelease>,
    label: Seq<char>,
    asset: Seq<char>,
    bytes: Vec<u8>,
)
    ensures
        ({
            let nightly = after_nightly(Fetched::Got(release));
            let default = after_listing(None, Fetched::Got(list));
            let downloaded = after_download(
                release@,
                label,
                asset,
                DownloadOutcome::Got(bytes),
            );
            &&& nightly.notices == seq![
                Notice::ReleaseFound {
                    tag: release@.tag_name,
                    published: match release@.published_at {
                        Some(p) => p,
                        None => "unknown"@,
                    },
                },
            ]
            &&& nightly.action is ReadInstalled
            &&& default_release(release_models(list@)) matches Some((v, chosen)) ==> default.notices
                == seq![Notice::Selected(v.shown())] && default.action is ReadInstalled
            &&& downloaded.notices == seq![
                Notice::Downloaded { name: asset, size: bytes_shown(bytes@.len()) },
            ]
            &&& after_install(o, release@, label).notices == seq![
                Notice::InstalledTo(package_path(o.base@)),
            ]
        }),
{
}

/// What is asked and shown where something is installed: whether it is the same release,
/// and the dates of the two.
pub proof fn law_replacement_is_announced(
    o: SetupOptions,
    release: ReleaseModel,
    label: Seq<char>,
    info: VersionInfo,
)
    ensures
        ({
            let t = after_installed(o, release, label, Some(info));
            &&& info.release_id == release.id ==> t.notices[0] == Notice::UpToDate {
                published: info.published_at@,
            }
            &&& info.release_id != release.id && release.published_at is Some ==> t.notices[0]
                == Notice::WillReplace { from: info.published_at@, to: release.published_at->0 }
            &&& info.release_id != release.id && release.published_at is None ==> t.notices[0]
                == Notice::WillReplace { from: info.published_at@, to: "unknown"@ }
            &&& o.yes ==> t.notices.len() == 2 && t.notices[1] is Blank
            &&& !o.yes ==> t.notices.len() == 1
            &&& !o.yes ==> t.phase == Phase::ConfirmReplace {
                release,
                label,
                same: info.release_id == release.id,
            }
        }),
{
}

/// The nightly and the list of releases are fetched from the same repository.
pub proof fn law_addresses()
    ensures
        ({
            let repo = "https://api.github.com/repos/"@ + REPO_OWNER@ + "/"@ + REPO_NAME@
                + "/releases"@;
            &&& starts_with(nightly_address(), repo)
            &&& starts_with(listing_address(), repo)
            &&& ends_with(nightly_address(), "/"@ + RELEASE_TAG@)
        }),
        nightly_address()
            == "https://api.github.com/repos/soteria-tools/soteria/releases/tags/nightly"@,
        listing_address()
            == "https://api.github.com/repos/soteria-tools/soteria/releases?per_page=100"@,
{
    assert(nightly_address()
        == "https://api.github.com/repos/soteria-tools/soteria/releases/tags/nightly"@) by {
        reveal_strlit("https://api.github.com/repos/");
        reveal_strlit("soteria-tools");
        reveal_strlit("/");
        reveal_strlit("soteria");
        reveal_strlit("/releases/tags/");
        reveal_strlit("nightly");
        reveal_strlit("https://api.github.com/repos/soteria-tools/soteria/releases/tags/nightly");
        assert(nightly_address()
            =~= "https://api.github.com/repos/soteria-tools/soteria/releases/tags/nightly"@);
    }
    assert(listing_address()
        == "https://api.github.com/repos/soteria-tools/soteria/releases?per_page=100"@) by {
        reveal_strlit("https://api.github.com/repos/");
        reveal_strlit("soteria-tools");
        reveal_strlit("/");
        reveal_strlit("soteria");
        reveal_strlit("/releases?per_page=100");
        reveal_strlit("https://api.github.com/repos/soteria-tools/soteria/releases?per_page=100");
        assert(listing_address()
            =~= "https://api.github.com/repos/soteria-tools/soteria/releases?per_page=100"@);
    }
    reveal_strlit("/");
    reveal_strlit("/releases");
    reveal_strlit("/releases/tags/");
    reveal_strlit("/releases?per_page=100");
    let front = "https://api.github.com/repos/"@ + REPO_OWNER@ + "/"@ + REPO_NAME@;
    let repo = front + "/releases"@;
    let (a, b) = (nightly_address(), listing_address());
    assert("/releases/tags/"@.take(9) == "/releases"@);
    assert("/releases?per_page=100"@.take(9) == "/releases"@);
    assert(a.len() >= repo.len() && b.len() >= repo.len());
    assert(a.take(repo.len() as int) =~= front + "/releases/tags/"@.take(9));
    assert(b.take(repo.len() as int) =~= front + "/releases?per_page=100"@.take(9));
    let end = "/"@ + RELEASE_TAG@;
    assert(a.skip(a.len() - end.len()) =~= end);
}

/// Each step waits for its own kind of answer, and takes any answer of that kind; the last
/// one waits for nothing.
pub proof fn law_what_is_waited_for(o: SetupOptions, events: Seq<SetupEvent>, event: SetupEvent)
    requires
        setup_trace(o, events),
    ensures
        awaited(o, setup_after(o, events).phase, event) <==> match setup_after(o, events).action {
            SetupAction::CheckPath(_) => event is Exists,
            SetupAction::Ask(_) => event is Answer,
            SetupAction::FetchNightly(_) => event is Nightly,
            SetupAction::ListReleases(_) => event is Releases,
            SetupAction::ReadInstalled => event is Installed,
            SetupAction::Download { .. } => event is Downloaded,
            SetupAction::InstallArchive(_)
            | SetupAction::CopyPackage(_)
            | SetupAction::Record { .. } => event is Done,
            SetupAction::ReadGit(_) => event is Git,
            SetupAction::CheckToolchain(_) => event is Toolchain,
            SetupAction::BuildPlugins => event is Plugins,
            SetupAction::Exit(_) | SetupAction::Fail(_) | SetupAction::Finish => false,
        },
{
    lemma_modes(o, events);
    if events.len() > 0 {
        lemma_modes(o, events.drop_last());
    }
}

/// A version that no release has, and a list without a supported release, are answered
/// with the versions that there are; and an argument that is no release is named.
#[verifier::rlimit(40)]
pub proof fn law_missing_releases(v: Version, list: Vec<GhRelease>, o: SetupOptions)
    ensures
        ({
            let releases = release_models(list@);
            let all = "Available versions: "@ + versions_joined(sorted_versions(releases));
            let exact = after_listing(Some(v), Fetched::Got(list)).action;
            let default = after_listing(None, Fetched::Got(list)).action;
            &&& exact_release(releases, v) is None ==> exact is Fail && ends_with(
                exact->Fail_0,
                all,
            ) && starts_with(exact->Fail_0, "No release "@ + v.shown() + " found"@)
            &&& default_release(releases) is None ==> default is Fail && exists|
                a: Seq<char>,
                b: Seq<char>,
            |
                default->Fail_0 == #[trigger] (a + all + b)
            &&& o.local is None && o.release is Some && requested_release(
                opt_string(o.release),
            ) is None ==> setup_start(o).action is Fail && starts_with(
                setup_start(o).action->Fail_0,
                "Invalid --release value '"@ + o.release->0@ + "'"@,
            )
        }),
{
    reveal_strlit("Available versions: ");
    reveal_strlit(".\nAvailable versions: ");
    reveal_strlit(".x).\nAvailable versions: ");
    reveal_strlit(" found");
    reveal_strlit(" found for ");
    reveal_strlit("'");
    reveal_strlit("'. Expected 'nightly' or a version like '0.3.5'.");
    let releases = release_models(list@);
    let all = "Available versions: "@ + versions_joined(sorted_versions(releases));
    if exact_release(releases, v) is None {
        let m = after_listing(Some(v), Fetched::Got(list)).action->Fail_0;
        assert(m.skip(m.len() - all.len()) =~= all);
        let head = "No release "@ + v.shown() + " found"@;
        assert(m.take(head.len() as int) =~= head);
    }
    if default_release(releases) is None {
        let m = after_listing(None, Fetched::Got(list)).action->Fail_0;
        let a = "No supported stable release found (need "@ + series_shown(MIN_SUPPORTED_MINOR)
            + ".x – "@ + series_shown(MAX_SUPPORTED_MINOR) + ".x).\n"@;
        let b = "\nUse `--release nightly` or `--release X.Y.Z` to pick one explicitly."@;
        reveal_strlit(".x).\n");
        assert(m =~= a + all + b);
    }
    if o.local is None && o.release is Some && requested_release(opt_string(o.release)) is None {
        let m = setup_start(o).action->Fail_0;
        let head = "Invalid --release value '"@ + o.release->0@ + "'"@;
        assert(m.take(head.len() as int) =~= head);
    }
}

/// What is shown when a setup begins: the banner, and behind it the warning for an
/// untested release, with a remark where the user need not be asked.
pub proof fn law_opening_notices(o: SetupOptions)
    ensures
        ({
            let shown = setup_start(o).notices;
            let banner = seq![Notice::Blank, Notice::Banner, Notice::Blank];
            let warned = banner + seq![
                Notice::Untested(untested_warning(requested_release(opt_string(o.release))->0)->0),
                Notice::NoGuarantee,
            ];
            &&& !untested(o) ==> shown == banner
            &&& untested(o) && !o.yes ==> shown == warned
            &&& untested(o) && o.yes ==> shown == warned.push(Notice::ProceedingAnyway)
        }),
{
}

/// What is shown when the user has answered: nothing is to do where the same release was
/// not to be installed again, and otherwise the setup was aborted.
pub proof fn law_notices_after_an_answer(
    o: SetupOptions,
    release: ReleaseModel,
    label: Seq<char>,
    spec: ReleaseSpec,
    no: SetupEvent,
)
    requires
        no is Answer,
        !means_yes(no->Answer_0@),
    ensures
        setup_next(o, Phase::ConfirmReplace { release, label, same: true }, no).notices == seq![
            Notice::<Seq<char>>::Blank,
            Notice::NothingToDo,
        ],
        setup_next(o, Phase::ConfirmReplace { release, label, same: false }, no).notices == seq![
            Notice::<Seq<char>>::Blank,
            Notice::Aborted,
        ],
        setup_next(o, Phase::ConfirmUntested(spec), no).notices == seq![
            Notice::<Seq<char>>::Aborted,
        ],
        setup_next(o, Phase::ConfirmLocal, no).notices == seq![Notice::<Seq<char>>::Aborted],
{
}

/// What is looked for on the way to a local installation: the install directory, to know
/// whether there is anything to replace, and then the package, whose path is shown.
pub proof fn law_local_paths(o: SetupOptions, path: Seq<char>)
    requires
        o.local is Some,
        o.local->0@ == path,
    ensures
        setup_next(o, Phase::LocalPath, SetupEvent::Exists(true)).action == SetupAction::<
            Seq<char>,
            Seq<u8>,
        >::CheckPath(package_path(o.base@)),
        setup_next(o, Phase::LocalPath, SetupEvent::Exists(true)).phase is LocalDest,
        setup_next(o, Phase::LocalPath, SetupEvent::Exists(false)).action == SetupAction::<
            Seq<char>,
            Seq<u8>,
        >::Fail("Path '"@ + path + "' does not exist."@),
        setup_next(o, Phase::LocalDest, SetupEvent::Exists(false)).action == SetupAction::<
            Seq<char>,
            Seq<u8>,
        >::CheckPath(local_package(path)),
        o.yes ==> setup_next(o, Phase::LocalDest, SetupEvent::Exists(true)).action
            == SetupAction::<Seq<char>, Seq<u8>>::CheckPath(local_package(path)),
        setup_next(o, Phase::LocalSource, SetupEvent::Exists(true)).notices == seq![
            Notice::Source(local_package(path)),
        ],
        setup_next(o, Phase::LocalCopy, SetupEvent::Done).notices == seq![
            Notice::InstalledTo(package_path(o.base@)),
        ],
        setup_next(o, Phase::LocalSource, SetupEvent::Exists(false)).action is Fail && starts_with(
            setup_next(o, Phase::LocalSource, SetupEvent::Exists(false)).action->Fail_0,
            "Expected package directory not found at "@ + local_package(path),
        ),
{
    let m = setup_next(o, Phase::LocalSource, SetupEvent::Exists(false)).action->Fail_0;
    let head = "Expected package directory not found at "@ + local_package(path);
    assert(m.take(head.len() as int) == head);
}

/// The name under which a setup reports its success is the one that was recorded, and a
/// local build has none.
pub proof fn law_name_is_carried(o: SetupOptions, events: Seq<SetupEvent>)
    requires
        setup_trace(o, events),
    ensures
        match setup_after(o, events).phase {
            Phase::Recording { name } => {
                let record = setup_after(o, events).action;
                (o.local is Some ==> name is None) && (o.local is None ==> name == Some(
                    record->Record_name,
                ))
            },
            Phase::Toolchain { name } => setup_after(o, events.drop_last()).phase
                == Phase::<ReleaseModel, Seq<char>>::Recording { name },
            Phase::Plugins { name } => setup_after(o, events.drop_last()).phase == Phase::<
                ReleaseModel,
                Seq<char>,
            >::Toolchain { name },
            _ => true,
        },
{
    if events.len() > 0 {
        lemma_modes(o, events.drop_last());
    }
}

/// What is downloaded is the asset itself, from its own address, and its size is told.
pub proof fn law_download_of(asset: AssetModel)
    ensures
        download_of(asset)->url == asset.browser_download_url,
        download_of(asset)->Download_name == asset.name,
        download_of(asset)->Download_size == asset.size,
{
}

/// What is shown between the steps: a blank line after every answer that goes on, and
/// after a replacement that needs none; and nothing where there is nothing to tell.
pub proof fn law_notices_on_the_way(
    o: SetupOptions,
    spec: ReleaseSpec,
    release: ReleaseModel,
    label: Seq<char>,
    same: bool,
    name: Option<Seq<char>>,
    yes: SetupEvent,
)
    requires
        yes is Answer,
        means_yes(yes->Answer_0@),
    ensures
        ({
            let blank = seq![Notice::<Seq<char>>::Blank];
            let there = SetupEvent::Exists(true);
            let missing = SetupEvent::Exists(false);
            &&& setup_next(o, Phase::LocalPath, there).notices.len() == 0
            &&& setup_next(o, Phase::LocalPath, missing).notices.len() == 0
            &&& setup_next(o, Phase::LocalDest, missing).notices.len() == 0
            &&& o.yes ==> setup_next(o, Phase::LocalDest, there).notices == blank
            &&& !o.yes ==> setup_next(o, Phase::LocalDest, there).notices.len() == 0
            &&& setup_next(o, Phase::ConfirmLocal, yes).notices == blank
            &&& setup_next(o, Phase::ConfirmUntested(spec), yes).notices == blank
            &&& setup_next(o, Phase::ConfirmReplace { release, label, same }, yes).notices == blank
            &&& setup_next(o, Phase::LocalSource, missing).notices.len() == 0
            &&& setup_next(o, Phase::Recording { name }, SetupEvent::Done).notices == blank
            &&& after_installed(o, release, label, None).notices.len() == 0
            &&& after_plugins(name, Ok(Some(0i32))).notices == seq![
                Notice::PluginsBuilt,
                Notice::Blank,
                Notice::Success(name),
                Notice::Blank,
                Notice::RunHint,
                Notice::Blank,
            ]
        }),
{
}

/// What the user is asked in each case.
pub proof fn law_questions(
    o: SetupOptions,
    release: ReleaseModel,
    label: Seq<char>,
    info: VersionInfo,
)
    requires
        !o.yes,
    ensures
        untested(o) ==> setup_start(o).action == SetupAction::<Seq<char>, Seq<u8>>::Ask(
            "Continue anyway? [y/N]"@,
        ),
        after_installed(o, release, label, Some(info)).action == SetupAction::<
            Seq<char>,
            Seq<u8>,
        >::Ask(
            if info.release_id == release.id {
                "Re-install anyway? [y/N]"@
            } else {
                "Continue? [y/N]"@
            },
        ),
        setup_next(o, Phase::LocalDest, SetupEvent::Exists(true)).action == SetupAction::<
            Seq<char>,
            Seq<u8>,
        >::Ask("Soteria is already installed. Update from local path? [y/N]"@),
{
}

/// A toolchain check that succeeds without printing anything leaves the path empty.
pub proof fn law_silent_toolchain(name: Option<Seq<char>>, stdout: Seq<char>, stderr: Seq<char>)
    requires
        nonempty(lines(stdout)).len() == 0,
    ensures
        toolchain_turn(name, Some(0i32), stdout, stderr).notices == seq![
            Notice::ToolchainFound(Seq::<char>::empty()),
            Notice::BuildingPlugins,
        ],
        toolchain_turn(name, Some(0i32), stdout, stderr).phase == (Phase::<
            ReleaseModel,
            Seq<char>,
        >::Plugins { name }),
{
    assert(toolchain_turn(name, Some(0i32), stdout, stderr).notices =~= seq![
        Notice::ToolchainFound(Seq::<char>::empty()),
        Notice::BuildingPlugins,
    ]);
}

} // verus!
