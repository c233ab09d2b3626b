use niri_settings::errors::SettingsError;
use niri_settings::persist::{SaveStatus, ValidatorRun};
use niri_settings::save::{
    save_action, save_result, save_start, save_step, validation_event, SaveAction, SaveEvent,
};

/// Drives a save with the given events, returning the actions asked for and
/// the final result.
fn drive(events: Vec<SaveEvent>) -> (Vec<SaveAction>, Option<Result<SaveStatus, SettingsError>>) {
    let mut state = save_start();
    let mut actions = vec![save_action(&state)];
    for event in events {
        state = save_step(state, event);
        actions.push(save_action(&state));
    }
    (actions, save_result(state))
}

#[test]
fn accepted_save_runs_every_step() {
    let (actions, result) = drive(vec![
        SaveEvent::Done,
        validation_event(ValidatorRun::Accepted),
        SaveEvent::Done,
        SaveEvent::Done,
        SaveEvent::Done,
    ]);
    assert_eq!(
        actions,
        [
            SaveAction::WriteCandidate,
            SaveAction::Validate,
            SaveAction::ReplaceFragment,
            SaveAction::EnsureInclude,
            SaveAction::WriteStore,
            SaveAction::Report,
        ]
    );
    assert_eq!(result, Some(Ok(SaveStatus::Validated)));
}

#[test]
fn missing_compositor_saves_unvalidated() {
    let (_, result) = drive(vec![
        SaveEvent::Done,
        validation_event(ValidatorRun::Missing),
        SaveEvent::Done,
        SaveEvent::Done,
        SaveEvent::Done,
    ]);
    assert_eq!(result, Some(Ok(SaveStatus::SavedWithoutValidation)));
}

#[test]
fn refused_candidate_is_removed_and_reported() {
    let refused = validation_event(ValidatorRun::Rejected {
        stderr: "\n  error: unknown node `bogus`  \n".into(),
        stdout: "ignored".into(),
    });
    let (actions, result) = drive(vec![SaveEvent::Done, refused, SaveEvent::Failed(SettingsError::Io("busy".into()))]);
    assert_eq!(
        actions,
        [SaveAction::WriteCandidate, SaveAction::Validate, SaveAction::RemoveCandidate, SaveAction::Report]
    );
    assert_eq!(
        result,
        Some(Err(SettingsError::Validation("error: unknown node `bogus`".into())))
    );
}

#[test]
fn failed_steps_end_the_save() {
    let boom = SettingsError::Io("disk full".into());
    let (actions, result) = drive(vec![SaveEvent::Failed(boom.clone()), SaveEvent::Done]);
    assert_eq!(actions, [SaveAction::WriteCandidate, SaveAction::Report, SaveAction::Report]);
    assert_eq!(result, Some(Err(boom.clone())));

    let (actions, result) = drive(vec![
        SaveEvent::Done,
        SaveEvent::Done,
        SaveEvent::Done,
        SaveEvent::Failed(boom.clone()),
    ]);
    assert_eq!(actions.last(), Some(&SaveAction::Report));
    assert!(!actions.contains(&SaveAction::WriteStore));
    assert_eq!(result, Some(Err(boom)));
}

#[test]
fn unfinished_save_has_no_result() {
    let (_, result) = drive(vec![SaveEvent::Done]);
    assert_eq!(result, None);
    assert_eq!(
        validation_event(ValidatorRun::Failed("permission denied".into())),
        SaveEvent::Failed(SettingsError::Io("permission denied".into()))
    );
}
