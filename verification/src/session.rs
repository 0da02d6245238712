//! A run in progress: the final list, the phase, and the step that takes
//! the host's answer to the next action.

use vstd::prelude::*;
use vstd::string::StringExecFns;
use crate::entry::{label_of, ResolvedToolVersion};
use crate::protocol::{
    advance, in_range, next_phase, opening, pending, valid, Action, EventView, Failure, Phase,
    RepairStep, SessionView,
};

verus! {

/// The host's answer to an action.
#[derive(Clone, Debug, PartialEq, Eq)]
pub enum Event {
    /// Whether the backend holds the version as installed.
    Installed(bool),
    /// The action was carried out.
    Done,
    /// The action failed, for the reason given.
    Failed(String),
}

impl View for Event {
    type V = EventView;

    open spec fn view(&self) -> EventView {
        match self {
            Event::Installed(installed) => EventView::Installed(*installed),
            Event::Done => EventView::Done,
            Event::Failed(reason) => EventView::Failed(reason@),
        }
    }
}

/// A run in progress. Its phase is always about an entry of its list.
#[derive(Debug)]
pub struct Session {
    entries: Vec<ResolvedToolVersion>,
    dry_run: bool,
    phase: Phase,
    cause: String,
}

impl View for Session {
    type V = SessionView;

    closed spec fn view(&self) -> SessionView {
        SessionView {
            entries: self.entries.deep_view(),
            dry_run: self.dry_run,
            phase: self.phase,
            cause: self.cause@,
        }
    }
}

/// The text in which the cause of a failure is wrapped, where it is
/// wrapped in one.
pub open spec fn context_of(s: SessionView) -> Option<Seq<char>> {
    match s.phase {
        Phase::Failed(Failure::Removal(entry)) => Some(
            "failed to uninstall "@ + label_of(s.entries[entry as int]),
        ),
        Phase::Failed(Failure::Repair(RepairStep::UpdateLockfiles)) => Some(
            "failed to update lockfiles"@,
        ),
        Phase::Failed(Failure::Repair(RepairStep::Reshim)) => Some("failed to reshim"@),
        Phase::Failed(Failure::Protocol) => Some("unexpected answer from the host"@),
        _ => None,
    }
}

/// The text that reports a removal, real or simulated.
pub open spec fn finish_text(dry_run: bool) -> Seq<char> {
    if dry_run {
        "uninstalled (dry-run)"@
    } else {
        "uninstalled"@
    }
}

/// The text that reports a removal, real or simulated.
pub fn finish_message(dry_run: bool) -> (text: &'static str)
    ensures
        text@ == finish_text(dry_run),
{
    if dry_run {
        "uninstalled (dry-run)"
    } else {
        "uninstalled"
    }
}

/// The warning for an entry that its backend does not hold as installed.
pub fn not_installed_warning(entry: &ResolvedToolVersion) -> (text: String)
    ensures
        text@ == label_of(entry@) + " is not installed"@,
{
    let mut text = entry.label();
    text.append(" is not installed");
    text
}

/// The phase to which `event` leads from `phase`.
fn next_after(phase: Phase, event: &Event, count: usize) -> (next: Phase)
    requires
        in_range(phase, count as nat),
    ensures
        next == next_phase(phase, event@, count as nat),
        in_range(next, count as nat),
{
    match phase {
        Phase::Checking(entry) => match event {
            Event::Installed(true) => Phase::Removing(entry),
            Event::Installed(false) => Phase::Skipping(entry),
            _ => Phase::Failed(Failure::Protocol),
        },
        Phase::Skipping(entry) | Phase::Reporting(entry) => match event {
            Event::Done => if entry + 1 < count {
                Phase::Checking(entry + 1)
            } else {
                Phase::Repairing(RepairStep::TouchDataRoot)
            },
            _ => Phase::Failed(Failure::Protocol),
        },
        Phase::Removing(entry) => match event {
            Event::Done => Phase::Reporting(entry),
            Event::Failed(_) => Phase::Failed(Failure::Removal(entry)),
            _ => Phase::Failed(Failure::Protocol),
        },
        Phase::Repairing(step) => match event {
            Event::Done => match step {
                RepairStep::TouchDataRoot => Phase::Repairing(RepairStep::UpdateLockfiles),
                RepairStep::UpdateLockfiles => Phase::Repairing(RepairStep::RebuildToolset),
                RepairStep::RebuildToolset => Phase::Repairing(RepairStep::Reshim),
                RepairStep::Reshim => Phase::Repairing(RepairStep::RebuildSymlinks),
                RepairStep::RebuildSymlinks => Phase::Succeeded,
            },
            Event::Failed(_) => Phase::Failed(Failure::Repair(step)),
            _ => Phase::Failed(Failure::Protocol),
        },
        Phase::Succeeded => Phase::Succeeded,
        Phase::Failed(failure) => Phase::Failed(failure),
    }
}

impl Session {
    #[verifier::type_invariant]
    spec fn well_formed(self) -> bool {
        in_range(self.phase, self.entries@.len())
    }

    /// A run over `entries`, which are taken to be the final list, at its
    /// beginning.
    pub fn begin(entries: Vec<ResolvedToolVersion>, dry_run: bool) -> (session: Session)
        ensures
            session@ == (SessionView {
                entries: entries.deep_view(),
                dry_run,
                phase: opening(entries.deep_view().len()),
                cause: Seq::empty(),
            }),
            valid(session@),
    {
        let phase = if entries.len() > 0 {
            Phase::Checking(0)
        } else {
            Phase::Repairing(RepairStep::TouchDataRoot)
        };
        Session { entries, dry_run, phase, cause: String::new() }
    }

    /// The action that the host is to carry out now.
    pub fn pending(&self) -> (action: Action)
        ensures
            action == pending(self@),
            valid(self@),
    {
        proof {
            use_type_invariant(self);
            assert(self.entries.len() == self.entries@.len());
        }
        match self.phase {
            Phase::Checking(entry) => Action::CheckInstalled { entry, refresh: true },
            Phase::Skipping(entry) => Action::WarnNotInstalled { entry },
            Phase::Removing(entry) => Action::Uninstall { entry, dry_run: self.dry_run },
            Phase::Reporting(entry) => Action::Finish { entry, dry_run: self.dry_run },
            Phase::Repairing(step) => Action::Repair(step),
            Phase::Succeeded => Action::Succeed,
            Phase::Failed(failure) => Action::Fail(failure),
        }
    }

    /// Takes the host's answer to the pending action.
    pub fn step(self, event: Event) -> (next: Session)
        ensures
            next@ == advance(self@, event@),
            valid(next@),
    {
        proof {
            use_type_invariant(&self);
        }
        let phase = next_after(self.phase, &event, self.entries.len());
        let blamed = match self.phase {
            Phase::Removing(_) | Phase::Repairing(_) => true,
            _ => false,
        };
        let cause = match event {
            Event::Failed(reason) => if blamed {
                reason
            } else {
                self.cause
            },
            _ => self.cause,
        };
        Session { entries: self.entries, dry_run: self.dry_run, phase, cause }
    }

    /// The final list.
    pub fn entries(&self) -> (entries: &Vec<ResolvedToolVersion>)
        ensures
            entries.deep_view() == self@.entries,
    {
        &self.entries
    }

    /// The entry at `position` of the final list, if there is one.
    pub fn entry(&self, position: usize) -> (entry: Option<&ResolvedToolVersion>)
        ensures
            match entry {
                Some(found) => position < self@.entries.len() && found@ == self@.entries[position as int],
                None => position >= self@.entries.len(),
            },
    {
        if position < self.entries.len() {
            Some(&self.entries[position])
        } else {
            None
        }
    }

    /// Whether removals are only simulated.
    pub fn dry_run(&self) -> (dry_run: bool)
        ensures
            dry_run == self@.dry_run,
    {
        self.dry_run
    }

    /// Where the run stands.
    pub fn phase(&self) -> (phase: Phase)
        ensures
            phase == self@.phase,
    {
        self.phase
    }

    /// What the host gave as the cause of the failure; empty before one.
    pub fn cause(&self) -> (cause: &String)
        ensures
            cause@ == self@.cause,
    {
        &self.cause
    }

    /// How the run ended: `None` while it goes on, then success or the
    /// failure.
    pub fn outcome(&self) -> (outcome: Option<Result<(), Failure>>)
        ensures
            outcome == match self@.phase {
                Phase::Succeeded => Some(Ok::<(), Failure>(())),
                Phase::Failed(failure) => Some(Err::<(), Failure>(failure)),
                _ => None::<Result<(), Failure>>,
            },
    {
        match self.phase {
            Phase::Succeeded => Some(Ok(())),
            Phase::Failed(failure) => Some(Err(failure)),
            _ => None,
        }
    }

    /// The text in which the cause of the failure is wrapped, where it is
    /// wrapped in one.
    pub fn context(&self) -> (text: Option<String>)
        ensures
            text.deep_view() == context_of(self@),
    {
        proof {
            use_type_invariant(self);
        }
        match self.phase {
            Phase::Failed(Failure::Removal(entry)) => {
                let mut text = String::from_str("failed to uninstall ");
                text.append(self.entries[entry].label().as_str());
                Some(text)
            },
            Phase::Failed(Failure::Repair(RepairStep::UpdateLockfiles)) => Some(
                String::from_str("failed to update lockfiles"),
            ),
            Phase::Failed(Failure::Repair(RepairStep::Reshim)) => Some(
                String::from_str("failed to reshim"),
            ),
            Phase::Failed(Failure::Protocol) => Some(
                String::from_str("unexpected answer from the host"),
            ),
            _ => None,
        }
    }
}

} // verus!
