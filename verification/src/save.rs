//! The decisions of a save, as a state machine: the caller performs each
//! action (writing the candidate fragment, running the compositor's check,
//! replacing files) and reports how it went; the machine says what comes
//! next. A candidate the compositor refuses is removed and none of the
//! active files is touched.

use vstd::prelude::*;
use crate::errors::SettingsError;
use crate::persist::{diagnostics, validation_outcome, SaveStatus, ValidatorRun};

verus! {

/// Where a save stands.
#[derive(Debug)]
pub enum SaveState {
    /// The merged fragment is being written to a candidate file beside it.
    WritingCandidate,
    /// The compositor is checking the candidate.
    Validating,
    /// A refused candidate is being removed; the save then fails so.
    Discarding(SettingsError),
    /// The candidate replaces the managed fragment.
    Replacing(SaveStatus),
    /// The main niri config gets its include of the fragment.
    Including(SaveStatus),
    /// The JSON store is rewritten.
    Storing(SaveStatus),
    /// The save is over, with this result.
    Finished(Result<SaveStatus, SettingsError>),
}

/// What the caller is to do next.
#[derive(Clone, Copy, Debug, PartialEq, Eq, Structural)]
pub enum SaveAction {
    WriteCandidate,
    Validate,
    RemoveCandidate,
    ReplaceFragment,
    EnsureInclude,
    WriteStore,
    /// Stop: the save is over (see [`save_result`]).
    Report,
}

/// How the last action went.
#[derive(Clone, Debug, PartialEq, Eq)]
pub enum SaveEvent {
    /// It succeeded; for the check, the compositor accepted the candidate.
    Done,
    /// The check could not run because there is no compositor to run; the
    /// save goes on (elsewhere this counts as `Done`).
    Unvalidated,
    /// It failed with this error.
    Failed(SettingsError),
}

/// The state a save starts in.
pub open spec fn start_state() -> SaveState {
    SaveState::WritingCandidate
}

/// The action each state asks for.
pub open spec fn action_of(s: SaveState) -> SaveAction {
    match s {
        SaveState::WritingCandidate => SaveAction::WriteCandidate,
        SaveState::Validating => SaveAction::Validate,
        SaveState::Discarding(_) => SaveAction::RemoveCandidate,
        SaveState::Replacing(_) => SaveAction::ReplaceFragment,
        SaveState::Including(_) => SaveAction::EnsureInclude,
        SaveState::Storing(_) => SaveAction::WriteStore,
        SaveState::Finished(_) => SaveAction::Report,
    }
}

/// The state after an event: each step goes on to the next when it
/// succeeds and ends the save with its error when it fails; a failed check
/// first removes the candidate (a failure to remove it changes nothing).
pub open spec fn next_state(s: SaveState, ev: SaveEvent) -> SaveState {
    match (s, ev) {
        (SaveState::WritingCandidate, SaveEvent::Failed(e)) => SaveState::Finished(Err(e)),
        (SaveState::WritingCandidate, _) => SaveState::Validating,
        (SaveState::Validating, SaveEvent::Done) => SaveState::Replacing(SaveStatus::Validated),
        (SaveState::Validating, SaveEvent::Unvalidated) => SaveState::Replacing(
            SaveStatus::SavedWithoutValidation,
        ),
        (SaveState::Validating, SaveEvent::Failed(e)) => SaveState::Discarding(e),
        (SaveState::Discarding(e), _) => SaveState::Finished(Err(e)),
        (SaveState::Replacing(_), SaveEvent::Failed(e)) => SaveState::Finished(Err(e)),
        (SaveState::Replacing(st), _) => SaveState::Including(st),
        (SaveState::Including(_), SaveEvent::Failed(e)) => SaveState::Finished(Err(e)),
        (SaveState::Including(st), _) => SaveState::Storing(st),
        (SaveState::Storing(_), SaveEvent::Failed(e)) => SaveState::Finished(Err(e)),
        (SaveState::Storing(st), _) => SaveState::Finished(Ok(st)),
        (SaveState::Finished(r), _) => SaveState::Finished(r),
    }
}

/// The state after a sequence of events from the start.
pub open spec fn run_save(evs: Seq<SaveEvent>) -> SaveState
    decreases evs.len(),
{
    if evs.len() == 0 {
        start_state()
    } else {
        next_state(run_save(evs.drop_last()), evs.last())
    }
}

/// Whether an action writes one of the active files: the managed fragment,
/// the main niri config or the JSON store.
pub open spec fn touches_active_files(a: SaveAction) -> bool {
    a is ReplaceFragment || a is EnsureInclude || a is WriteStore
}

/// The state a save starts in.
pub fn save_start() -> (r: SaveState)
    ensures
        r == start_state(),
{
    SaveState::WritingCandidate
}

/// The action the state asks for (see [`action_of`]).
pub fn save_action(s: &SaveState) -> (r: SaveAction)
    ensures
        r == action_of(*s),
{
    match s {
        SaveState::WritingCandidate => SaveAction::WriteCandidate,
        SaveState::Validating => SaveAction::Validate,
        SaveState::Discarding(_) => SaveAction::RemoveCandidate,
        SaveState::Replacing(_) => SaveAction::ReplaceFragment,
        SaveState::Including(_) => SaveAction::EnsureInclude,
        SaveState::Storing(_) => SaveAction::WriteStore,
        SaveState::Finished(_) => SaveAction::Report,
    }
}

/// The state after an event (see [`next_state`]).
pub fn save_step(s: SaveState, ev: SaveEvent) -> (r: SaveState)
    ensures
        r == next_state(s, ev),
{
    match (s, ev) {
        (SaveState::WritingCandidate, SaveEvent::Failed(e)) => SaveState::Finished(Err(e)),
        (SaveState::WritingCandidate, _) => SaveState::Validating,
        (SaveState::Validating, SaveEvent::Done) => SaveState::Replacing(SaveStatus::Validated),
        (SaveState::Validating, SaveEvent::Unvalidated) => SaveState::Replacing(
            SaveStatus::SavedWithoutValidation,
        ),
        (SaveState::Validating, SaveEvent::Failed(e)) => SaveState::Discarding(e),
        (SaveState::Discarding(e), _) => SaveState::Finished(Err(e)),
        (SaveState::Replacing(_), SaveEvent::Failed(e)) => SaveState::Finished(Err(e)),
        (SaveState::Replacing(st), _) => SaveState::Including(st),
        (SaveState::Including(_), SaveEvent::Failed(e)) => SaveState::Finished(Err(e)),
        (SaveState::Including(st), _) => SaveState::Storing(st),
        (SaveState::Storing(_), SaveEvent::Failed(e)) => SaveState::Finished(Err(e)),
        (SaveState::Storing(st), _) => SaveState::Finished(Ok(st)),
        (SaveState::Finished(r), _) => SaveState::Finished(r),
    }
}

/// The result of a finished save; `None` while it is under way.
pub fn save_result(s: SaveState) -> (r: Option<Result<SaveStatus, SettingsError>>)
    ensures
        match s {
            SaveState::Finished(res) => r == Some(res),
            _ => r is None,
        },
{
    match s {
        SaveState::Finished(res) => Some(res),
        _ => None,
    }
}

/// The event that a run of the compositor's check reports (see
/// [`validation_outcome`]): an accepted run is `Done`, a missing compositor
/// `Unvalidated`, a rejection fails with the diagnostics, any other failure
/// with the system's message.
pub fn validation_event(run: ValidatorRun) -> (r: SaveEvent)
    ensures
        match run {
            ValidatorRun::Accepted => r == SaveEvent::Done,
            ValidatorRun::Missing => r == SaveEvent::Unvalidated,
            ValidatorRun::Rejected { stderr, stdout } => r matches SaveEvent::Failed(
                SettingsError::Validation(m),
            ) && m@ == diagnostics(stderr@, stdout@),
            ValidatorRun::Failed(e) => r == SaveEvent::Failed(SettingsError::Io(e)),
        },
{
    match validation_outcome(run) {
        Ok(SaveStatus::Validated) => SaveEvent::Done,
        Ok(SaveStatus::SavedWithoutValidation) => SaveEvent::Unvalidated,
        Err(e) => SaveEvent::Failed(e),
    }
}

// ── Laws ─────────────────────────────────────────────────────────────────────

/// Whether an event reports success.
pub open spec fn succeeded(ev: SaveEvent) -> bool {
    !(ev is Failed)
}

/// The status that the check's event gives a save.
pub open spec fn status_of(ev: SaveEvent) -> SaveStatus {
    if ev is Done {
        SaveStatus::Validated
    } else {
        SaveStatus::SavedWithoutValidation
    }
}

/// Which events lead to each state.
proof fn lemma_run_shape(evs: Seq<SaveEvent>)
    ensures
        match run_save(evs) {
            SaveState::WritingCandidate => evs.len() == 0,
            SaveState::Validating => evs.len() == 1 && succeeded(evs[0]),
            SaveState::Discarding(e) => evs.len() == 2 && succeeded(evs[0]) && evs[1]
                == SaveEvent::Failed(e),
            SaveState::Replacing(st) => evs.len() == 2 && succeeded(evs[0]) && succeeded(evs[1])
                && st == status_of(evs[1]),
            SaveState::Including(st) => evs.len() == 3 && (forall|i: int|
                0 <= i < 3 ==> succeeded(#[trigger] evs[i])) && st == status_of(evs[1]),
            SaveState::Storing(st) => evs.len() == 4 && (forall|i: int|
                0 <= i < 4 ==> succeeded(#[trigger] evs[i])) && st == status_of(evs[1]),
            SaveState::Finished(Ok(st)) => evs.len() >= 5 && (forall|i: int|
                0 <= i < 5 ==> succeeded(#[trigger] evs[i])) && st == status_of(evs[1]),
            SaveState::Finished(Err(_)) => evs.len() >= 1,
        },
    decreases evs.len(),
{
    if evs.len() > 0 {
        let p = evs.drop_last();
        let ev = evs.last();
        lemma_run_shape(p);
        assert(forall|i: int| 0 <= i < p.len() ==> #[trigger] p[i] == evs[i]);
        assert(evs[evs.len() - 1] == ev);
        assert(run_save(evs) == next_state(run_save(p), ev));
        match run_save(p) {
            SaveState::Replacing(st) => {
                assert forall|i: int| 0 <= i < 3 && succeeded(ev) implies succeeded(#[trigger] evs[i]) by {
                    if i < 2 {
                        assert(evs[i] == p[i]);
                    }
                }
            },
            SaveState::Including(st) => {
                assert forall|i: int| 0 <= i < 4 && succeeded(ev) implies succeeded(#[trigger] evs[i]) by {
                    if i < 3 {
                        assert(evs[i] == p[i]);
                        assert(succeeded(p[i]));
                    }
                }
            },
            SaveState::Storing(st) => {
                assert forall|i: int| 0 <= i < 5 && succeeded(ev) implies succeeded(#[trigger] evs[i]) by {
                    if i < 4 {
                        assert(evs[i] == p[i]);
                        assert(succeeded(p[i]));
                    }
                }
            },
            SaveState::Finished(Ok(st)) => {
                assert forall|i: int| 0 <= i < 5 implies succeeded(#[trigger] evs[i]) by {
                    assert(evs[i] == p[i]);
                    assert(succeeded(p[i]));
                }
            },
            _ => {},
        }
    }
}

/// A failed check leaves the active files untouched: a save writes the
/// managed fragment, the main config's include or the store only after the
/// candidate was written and the check succeeded (or could not run for want
/// of a compositor).
pub proof fn law_active_files_only_after_check(evs: Seq<SaveEvent>)
    ensures
        touches_active_files(action_of(run_save(evs))) ==> evs.len() >= 2 && succeeded(evs[0])
            && succeeded(evs[1]),
{
    lemma_run_shape(evs);
    if touches_active_files(action_of(run_save(evs))) {
        if run_save(evs) is Including || run_save(evs) is Storing {
            assert(succeeded(evs[0]) && succeeded(evs[1]));
        }
    }
}

/// A candidate that the check refuses ends the save with the check's error,
/// whatever is reported after it.
pub proof fn law_refused_check_reports_it(evs: Seq<SaveEvent>, e: SettingsError)
    requires
        evs.len() >= 3,
        succeeded(evs[0]),
        evs[1] == SaveEvent::Failed(e),
    ensures
        run_save(evs) == SaveState::Finished(Err::<SaveStatus, SettingsError>(e)),
    decreases evs.len(),
{
    let p = evs.drop_last();
    if evs.len() == 3 {
        let q = p.drop_last();
        assert(q =~= seq![evs[0]]);
        assert(q.drop_last() =~= Seq::<SaveEvent>::empty());
        assert(run_save(q.drop_last()) == start_state());
        assert(q.last() == evs[0]);
        assert(run_save(q) == SaveState::Validating);
        assert(p.last() == evs[1]);
        assert(run_save(p) == SaveState::Discarding(e));
    } else {
        law_refused_check_reports_it(p, e);
    }
}

/// A save reports success only when every step succeeded: the candidate,
/// the check, the fragment, the include and the store; its status says
/// whether the compositor checked the candidate.
pub proof fn law_success_after_every_step(evs: Seq<SaveEvent>, st: SaveStatus)
    requires
        run_save(evs) == SaveState::Finished(Ok::<SaveStatus, SettingsError>(st)),
    ensures
        evs.len() >= 5,
        forall|i: int| 0 <= i < 5 ==> succeeded(#[trigger] evs[i]),
        st == status_of(evs[1]),
{
    lemma_run_shape(evs);
}

} // verus!
