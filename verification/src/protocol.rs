//! The model of a run: its phases, what each phase asks of the host, and
//! how the host's answer leads to the next phase.

use vstd::prelude::*;
use crate::entry::ResolvedView;

verus! {

/// The steps that bring derived state in line with what is installed, in
/// the order in which they are taken.
#[derive(Clone, Copy, Debug, PartialEq, Eq, Structural)]
pub enum RepairStep {
    /// Touch the data root, so that caches keyed by its modification time
    /// are dropped.
    TouchDataRoot,
    /// Regenerate the lockfiles.
    UpdateLockfiles,
    /// Rebuild the declared toolset from the configuration.
    RebuildToolset,
    /// Regenerate the shims from the rebuilt toolset.
    Reshim,
    /// Rebuild the runtime symlinks.
    RebuildSymlinks,
}

/// Why a run ended without success.
#[derive(Clone, Copy, Debug, PartialEq, Eq, Structural)]
pub enum Failure {
    /// The backend failed to remove the entry at this position.
    Removal(usize),
    /// A repair step failed.
    Repair(RepairStep),
    /// The host answered with an event that the pending action does not
    /// call for.
    Protocol,
}

/// Where a run stands. The number in a phase is the position, in the final
/// list, of the entry that the phase is about.
#[derive(Clone, Copy, Debug, PartialEq, Eq, Structural)]
pub enum Phase {
    /// Asking the backend whether the entry is installed.
    Checking(usize),
    /// Warning that the entry is not installed.
    Skipping(usize),
    /// Having the backend remove the entry.
    Removing(usize),
    /// Reporting that the entry was removed.
    Reporting(usize),
    /// Taking a repair step.
    Repairing(RepairStep),
    /// The run is over and all went well.
    Succeeded,
    /// The run is over and was cut short.
    Failed(Failure),
}

/// What the host is to do next.
#[derive(Clone, Copy, Debug, PartialEq, Eq, Structural)]
pub enum Action {
    /// Ask the entry's backend whether the version is installed, having it
    /// look afresh where `refresh` is set. Answer with `Event::Installed`.
    CheckInstalled { entry: usize, refresh: bool },
    /// Warn that the entry is not installed. Answer with `Event::Done`.
    WarnNotInstalled { entry: usize },
    /// Have the entry's backend remove the version, or only go through the
    /// motions where `dry_run` is set. Answer with `Event::Done` or
    /// `Event::Failed`.
    Uninstall { entry: usize, dry_run: bool },
    /// Report that the entry was removed, or would have been where
    /// `dry_run` is set. Answer with `Event::Done`.
    Finish { entry: usize, dry_run: bool },
    /// Take the repair step. Answer with `Event::Done` or `Event::Failed`.
    Repair(RepairStep),
    /// Stop: the run succeeded.
    Succeed,
    /// Stop: the run failed.
    Fail(Failure),
}

/// The host's answer to an action, as plain text.
pub enum EventView {
    Installed(bool),
    Done,
    Failed(Seq<char>),
}

/// A run as plain values.
pub struct SessionView {
    /// The final list.
    pub entries: Seq<ResolvedView>,
    /// Whether removals are only simulated.
    pub dry_run: bool,
    /// Where the run stands.
    pub phase: Phase,
    /// What the host gave as the cause of the failure; empty before one.
    pub cause: Seq<char>,
}

/// The phase is about an entry that the list holds.
pub open spec fn in_range(phase: Phase, count: nat) -> bool {
    match phase {
        Phase::Checking(entry)
        | Phase::Skipping(entry)
        | Phase::Removing(entry)
        | Phase::Reporting(entry)
        | Phase::Failed(Failure::Removal(entry)) => entry < count,
        _ => true,
    }
}

/// A run as it can be: the list is one that a machine can hold, and the
/// phase is about one of its entries.
pub open spec fn valid(s: SessionView) -> bool {
    s.entries.len() <= usize::MAX && in_range(s.phase, s.entries.len())
}

/// The run is over.
pub open spec fn settled(phase: Phase) -> bool {
    phase is Succeeded || phase is Failed
}

/// The phase in which a run over `count` entries begins.
pub open spec fn opening(count: nat) -> Phase {
    if count > 0 {
        Phase::Checking(0)
    } else {
        Phase::Repairing(RepairStep::TouchDataRoot)
    }
}

/// The phase that follows the handling of `entry`: the next entry, or the
/// repair once the list is through.
pub open spec fn following(entry: usize, count: nat) -> Phase {
    if entry + 1 < count {
        Phase::Checking((entry + 1) as usize)
    } else {
        Phase::Repairing(RepairStep::TouchDataRoot)
    }
}

/// The phase that follows a repair step that went well.
pub open spec fn after_repair(step: RepairStep) -> Phase {
    match step {
        RepairStep::TouchDataRoot => Phase::Repairing(RepairStep::UpdateLockfiles),
        RepairStep::UpdateLockfiles => Phase::Repairing(RepairStep::RebuildToolset),
        RepairStep::RebuildToolset => Phase::Repairing(RepairStep::Reshim),
        RepairStep::Reshim => Phase::Repairing(RepairStep::RebuildSymlinks),
        RepairStep::RebuildSymlinks => Phase::Succeeded,
    }
}

/// The phase to which `event` leads from `phase`, in a run over `count`
/// entries. An entry that is not installed is skipped; a removal or a
/// repair step that fails ends the run; so does an event that the phase
/// does not call for; a run that is over stays as it is.
pub open spec fn next_phase(phase: Phase, event: EventView, count: nat) -> Phase {
    match phase {
        Phase::Checking(entry) => match event {
            EventView::Installed(true) => Phase::Removing(entry),
            EventView::Installed(false) => Phase::Skipping(entry),
            _ => Phase::Failed(Failure::Protocol),
        },
        Phase::Skipping(entry) | Phase::Reporting(entry) => match event {
            EventView::Done => following(entry, count),
            _ => Phase::Failed(Failure::Protocol),
        },
        Phase::Removing(entry) => match event {
            EventView::Done => Phase::Reporting(entry),
            EventView::Failed(_) => Phase::Failed(Failure::Removal(entry)),
            _ => Phase::Failed(Failure::Protocol),
        },
        Phase::Repairing(step) => match event {
            EventView::Done => after_repair(step),
            EventView::Failed(_) => Phase::Failed(Failure::Repair(step)),
            _ => Phase::Failed(Failure::Protocol),
        },
        Phase::Succeeded | Phase::Failed(_) => phase,
    }
}

/// The cause on record once `event` has met `phase`: the text of a failure
/// that the phase was open to, else the cause as it was.
pub open spec fn next_cause(phase: Phase, event: EventView, cause: Seq<char>) -> Seq<char> {
    match (phase, event) {
        (Phase::Removing(_), EventView::Failed(text)) => text,
        (Phase::Repairing(_), EventView::Failed(text)) => text,
        _ => cause,
    }
}

/// The run after the host has answered the pending action with `event`.
pub open spec fn advance(s: SessionView, event: EventView) -> SessionView {
    SessionView {
        entries: s.entries,
        dry_run: s.dry_run,
        phase: next_phase(s.phase, event, s.entries.len()),
        cause: next_cause(s.phase, event, s.cause),
    }
}

/// The action that a phase asks of the host.
pub open spec fn action_of(phase: Phase, dry_run: bool) -> Action {
    match phase {
        Phase::Checking(entry) => Action::CheckInstalled { entry, refresh: true },
        Phase::Skipping(entry) => Action::WarnNotInstalled { entry },
        Phase::Removing(entry) => Action::Uninstall { entry, dry_run },
        Phase::Reporting(entry) => Action::Finish { entry, dry_run },
        Phase::Repairing(step) => Action::Repair(step),
        Phase::Succeeded => Action::Succeed,
        Phase::Failed(failure) => Action::Fail(failure),
    }
}

/// The action that is pending in a run.
pub open spec fn pending(s: SessionView) -> Action {
    action_of(s.phase, s.dry_run)
}

/// The run after the host has answered, one after the other, with `events`.
pub open spec fn replay(s: SessionView, events: Seq<EventView>) -> SessionView
    decreases events.len(),
{
    if events.len() == 0 {
        s
    } else {
        advance(replay(s, events.drop_last()), events.last())
    }
}

/// How far a run has come: a number that grows with every answer until
/// the run is over.
pub open spec fn progress(phase: Phase, count: nat) -> nat {
    match phase {
        Phase::Checking(entry) => 4 * (entry as nat),
        Phase::Skipping(entry) => 4 * (entry as nat) + 1,
        Phase::Removing(entry) => 4 * (entry as nat) + 2,
        Phase::Reporting(entry) => 4 * (entry as nat) + 3,
        Phase::Repairing(RepairStep::TouchDataRoot) => 4 * count,
        Phase::Repairing(RepairStep::UpdateLockfiles) => 4 * count + 1,
        Phase::Repairing(RepairStep::RebuildToolset) => 4 * count + 2,
        Phase::Repairing(RepairStep::Reshim) => 4 * count + 3,
        Phase::Repairing(RepairStep::RebuildSymlinks) => 4 * count + 4,
        Phase::Succeeded => 4 * count + 5,
        Phase::Failed(_) => 4 * count + 6,
    }
}

/// The run after `k + 1` answers is the run after `k` answers, advanced by
/// the answer at `k`.
pub proof fn replay_unfolds(s: SessionView, events: Seq<EventView>, k: int)
    requires
        0 <= k < events.len(),
    ensures
        replay(s, events.take(k + 1)) == advance(replay(s, events.take(k)), events[k]),
{
    assert(events.take(k + 1).drop_last() =~= events.take(k));
}

/// No answer changes the list or turns a simulated run into a real one, and
/// the phase stays about an entry of the list.
pub proof fn replay_keeps_list_and_mode(s: SessionView, events: Seq<EventView>)
    requires
        valid(s),
    ensures
        replay(s, events).entries == s.entries,
        replay(s, events).dry_run == s.dry_run,
        valid(replay(s, events)),
    decreases events.len(),
{
    if events.len() > 0 {
        replay_keeps_list_and_mode(s, events.drop_last());
    }
}

/// A run that is over stays as it ended, whatever the host answers.
pub proof fn settled_runs_stay(s: SessionView, events: Seq<EventView>)
    requires
        settled(s.phase),
    ensures
        replay(s, events) == s,
    decreases events.len(),
{
    if events.len() > 0 {
        settled_runs_stay(s, events.drop_last());
    }
}

/// A failed removal ends the run: the failure names the entry, the cause is
/// on record, and whatever the host answers from then on, no further action
/// is asked of it, so no later entry is removed.
pub proof fn failed_removal_ends_run(
    s: SessionView,
    entry: usize,
    reason: Seq<char>,
    events: Seq<EventView>,
)
    requires
        s.phase == Phase::Removing(entry),
    ensures
        replay(advance(s, EventView::Failed(reason)), events) == (SessionView {
            phase: Phase::Failed(Failure::Removal(entry)),
            cause: reason,
            ..s
        }),
        pending(replay(advance(s, EventView::Failed(reason)), events)) == Action::Fail(
            Failure::Removal(entry),
        ),
{
    settled_runs_stay(advance(s, EventView::Failed(reason)), events);
}

/// A failed repair step ends the run, and the steps behind it are not
/// taken.
pub proof fn failed_repair_ends_run(
    s: SessionView,
    step: RepairStep,
    reason: Seq<char>,
    events: Seq<EventView>,
)
    requires
        s.phase == Phase::Repairing(step),
    ensures
        replay(advance(s, EventView::Failed(reason)), events) == (SessionView {
            phase: Phase::Failed(Failure::Repair(step)),
            cause: reason,
            ..s
        }),
        pending(replay(advance(s, EventView::Failed(reason)), events)) == Action::Fail(
            Failure::Repair(step),
        ),
{
    settled_runs_stay(advance(s, EventView::Failed(reason)), events);
}

/// Every removal and every report of one carries the mode of the run: a
/// simulated run never asks for a real removal, and reports each removal as
/// simulated.
pub proof fn actions_carry_the_mode(s: SessionView, events: Seq<EventView>)
    requires
        valid(s),
    ensures
        match pending(replay(s, events)) {
            Action::Uninstall { entry, dry_run } => dry_run == s.dry_run && entry
                < s.entries.len(),
            Action::Finish { entry, dry_run } => dry_run == s.dry_run && entry < s.entries.len(),
            Action::CheckInstalled { entry, refresh } => refresh && entry < s.entries.len(),
            Action::WarnNotInstalled { entry } => entry < s.entries.len(),
            _ => true,
        },
{
    replay_keeps_list_and_mode(s, events);
}

/// The course of a run does not depend on its mode: a simulated run goes
/// through the phases of the real one, the repair included.
pub proof fn phases_ignore_the_mode(s: SessionView, t: SessionView, events: Seq<EventView>)
    requires
        s.phase == t.phase,
        s.entries.len() == t.entries.len(),
    ensures
        replay(s, events).phase == replay(t, events).phase,
        replay(s, events).entries.len() == s.entries.len(),
        replay(t, events).entries.len() == t.entries.len(),
    decreases events.len(),
{
    if events.len() > 0 {
        phases_ignore_the_mode(s, t, events.drop_last());
    }
}

/// Every answer takes a run that is not over further.
pub proof fn steps_make_progress(s: SessionView, event: EventView)
    requires
        valid(s),
        !settled(s.phase),
    ensures
        progress(advance(s, event).phase, s.entries.len()) > progress(s.phase, s.entries.len()),
        valid(advance(s, event)),
{
}

/// A run never falls back: after more answers it has come at least as far,
/// and further if it was not over.
pub proof fn runs_never_fall_back(s: SessionView, events: Seq<EventView>, k: int)
    requires
        valid(s),
        0 <= k <= events.len(),
    ensures
        progress(replay(s, events).phase, s.entries.len()) >= progress(
            replay(s, events.take(k)).phase,
            s.entries.len(),
        ),
        k < events.len() && !settled(replay(s, events.take(k)).phase) ==> progress(
            replay(s, events).phase,
            s.entries.len(),
        ) > progress(replay(s, events.take(k)).phase, s.entries.len()),
    decreases events.len() - k,
{
    if k == events.len() {
        assert(events.take(k) =~= events);
    } else {
        let earlier = replay(s, events.take(k));
        replay_keeps_list_and_mode(s, events.take(k));
        replay_unfolds(s, events, k);
        runs_never_fall_back(s, events, k + 1);
        if !settled(earlier.phase) {
            steps_make_progress(earlier, events[k]);
        }
    }
}

/// Removals follow the list: where the host is asked to remove one entry
/// and, after further answers, another, the second stands behind the first
/// in the final list. So no entry is removed twice.
pub proof fn removals_follow_the_list(s: SessionView, events: Seq<EventView>, k: int)
    requires
        valid(s),
        0 <= k < events.len(),
        replay(s, events.take(k)).phase is Removing,
        replay(s, events).phase is Removing,
    ensures
        replay(s, events.take(k)).phase->Removing_0 < replay(s, events).phase->Removing_0,
{
    runs_never_fall_back(s, events, k);
}

/// The phase stands before the repair or at its first step.
pub open spec fn before_repair(phase: Phase) -> bool {
    match phase {
        Phase::Checking(_) | Phase::Skipping(_) | Phase::Removing(_) | Phase::Reporting(_) => true,
        Phase::Repairing(step) => step == RepairStep::TouchDataRoot,
        _ => false,
    }
}

/// The phase from which alone a run comes to `phase`, where there is one
/// such phase: each repair step but the first follows the step before it,
/// and success follows the last.
pub open spec fn forerunner(phase: Phase) -> Option<Phase> {
    match phase {
        Phase::Repairing(RepairStep::UpdateLockfiles) => Some(
            Phase::Repairing(RepairStep::TouchDataRoot),
        ),
        Phase::Repairing(RepairStep::RebuildToolset) => Some(
            Phase::Repairing(RepairStep::UpdateLockfiles),
        ),
        Phase::Repairing(RepairStep::Reshim) => Some(Phase::Repairing(RepairStep::RebuildToolset)),
        Phase::Repairing(RepairStep::RebuildSymlinks) => Some(
            Phase::Repairing(RepairStep::Reshim),
        ),
        Phase::Succeeded => Some(Phase::Repairing(RepairStep::RebuildSymlinks)),
        _ => None,
    }
}

/// A run that has come to a phase with a forerunner, and did not begin
/// there, stood in the forerunner after some earlier answer.
proof fn came_through(s: SessionView, events: Seq<EventView>) -> (k: int)
    requires
        forerunner(replay(s, events).phase) is Some,
        s.phase != replay(s, events).phase,
    ensures
        0 <= k < events.len(),
        Some(replay(s, events.take(k)).phase) == forerunner(replay(s, events).phase),
    decreases events.len(),
{
    let front = events.drop_last();
    assert(events.take(events.len() - 1) =~= front);
    if replay(s, front).phase == replay(s, events).phase {
        let k = came_through(s, front);
        assert(front.take(k) =~= events.take(k));
        k
    } else {
        events.len() - 1
    }
}

/// Success comes only through the repair: a run that stood before the
/// repair and has succeeded has taken every repair step, in their order,
/// whatever its mode and whether or not anything was removed. The numbers
/// returned say after how many answers each step was pending.
pub proof fn success_comes_through_repair(s: SessionView, events: Seq<EventView>) -> (at: (
    int,
    int,
    int,
    int,
    int,
))
    requires
        before_repair(s.phase),
        replay(s, events).phase == Phase::Succeeded,
    ensures
        0 <= at.0 < at.1 < at.2 < at.3 < at.4 < events.len(),
        replay(s, events.take(at.0)).phase == Phase::Repairing(RepairStep::TouchDataRoot),
        replay(s, events.take(at.1)).phase == Phase::Repairing(RepairStep::UpdateLockfiles),
        replay(s, events.take(at.2)).phase == Phase::Repairing(RepairStep::RebuildToolset),
        replay(s, events.take(at.3)).phase == Phase::Repairing(RepairStep::Reshim),
        replay(s, events.take(at.4)).phase == Phase::Repairing(RepairStep::RebuildSymlinks),
{
    let k4 = came_through(s, events);
    let e4 = events.take(k4);
    let k3 = came_through(s, e4);
    let e3 = e4.take(k3);
    assert(e3 =~= events.take(k3));
    let k2 = came_through(s, e3);
    let e2 = e3.take(k2);
    assert(e2 =~= events.take(k2));
    let k1 = came_through(s, e2);
    let e1 = e2.take(k1);
    assert(e1 =~= events.take(k1));
    let k0 = came_through(s, e1);
    assert(e1.take(k0) =~= events.take(k0));
    (k0, k1, k2, k3, k4)
}

/// Every run ends: after four answers for each entry and six more, it is
/// over.
pub proof fn runs_end(s: SessionView, events: Seq<EventView>)
    requires
        valid(s),
        events.len() >= 4 * s.entries.len() + 6,
    ensures
        settled(replay(s, events).phase),
{
    let count = s.entries.len();
    assert forall|k: int| 0 <= k <= events.len() implies settled(
        #[trigger] replay(s, events.take(k)).phase,
    ) || progress(replay(s, events.take(k)).phase, count) >= k by {
        far_enough(s, events, k);
    }
    assert(events.take(events.len() as int) =~= events);
    replay_keeps_list_and_mode(s, events);
}

/// After `k` answers a run is over or has come as far as `k`.
proof fn far_enough(s: SessionView, events: Seq<EventView>, k: int)
    requires
        valid(s),
        0 <= k <= events.len(),
    ensures
        settled(replay(s, events.take(k)).phase) || progress(
            replay(s, events.take(k)).phase,
            s.entries.len(),
        ) >= k,
    decreases k,
{
    if k > 0 {
        far_enough(s, events, k - 1);
        let earlier = replay(s, events.take(k - 1));
        replay_keeps_list_and_mode(s, events.take(k - 1));
        replay_unfolds(s, events, k - 1);
        if !settled(earlier.phase) {
            steps_make_progress(earlier, events[k - 1]);
        }
    } else {
        assert(events.take(0) =~= Seq::<EventView>::empty());
    }
}

} // verus!
