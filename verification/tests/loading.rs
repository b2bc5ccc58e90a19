use stance_consensus::loading::{loading_step, starting_round, LoadingAction, LoadingEvent, LoadingState};

#[test]
fn starting_round_follows_backup_unless_behind() {
    assert_eq!(starting_round(5, 0), Some(5));
    assert_eq!(starting_round(5, 5), Some(5));
    assert_eq!(starting_round(3, 4), None);
    assert_eq!(starting_round(0, 1), None);
}

#[test]
fn successful_run() {
    let (s, a) = loading_step(LoadingState::Loading, LoadingEvent::BackupLoaded { n_units: 7 });
    assert_eq!(a, LoadingAction::SendUnits);
    assert_eq!(s, LoadingState::SendingUnits { next_round_backup: 7 });
    let (s, a) = loading_step(s, LoadingEvent::UnitsSent);
    assert_eq!(a, LoadingAction::AwaitCollection);
    let (s, a) = loading_step(s, LoadingEvent::CollectionRound(6));
    assert_eq!(s, LoadingState::Finished);
    assert_eq!(a, LoadingAction::SendStartingRound(Some(7)));
}

#[test]
fn failures_send_none() {
    let (s, a) = loading_step(LoadingState::Loading, LoadingEvent::BackupFailed);
    assert_eq!((s, a), (LoadingState::Finished, LoadingAction::SendStartingRound(None)));
    let st = LoadingState::SendingUnits { next_round_backup: 2 };
    assert_eq!(
        loading_step(st, LoadingEvent::UnitsNotSent),
        (LoadingState::Finished, LoadingAction::SendStartingRound(None))
    );
    let st = LoadingState::AwaitingCollection { next_round_backup: 2 };
    assert_eq!(
        loading_step(st, LoadingEvent::CollectionFailed),
        (LoadingState::Finished, LoadingAction::SendStartingRound(None))
    );
}

#[test]
fn finished_ignores_events() {
    assert_eq!(
        loading_step(LoadingState::Finished, LoadingEvent::UnitsSent),
        (LoadingState::Finished, LoadingAction::Ignore)
    );
    let st = LoadingState::Loading;
    assert_eq!(loading_step(st, LoadingEvent::CollectionRound(3)), (st, LoadingAction::Ignore));
}

#[test]
fn backup_round_wraps() {
    let (s, _) = loading_step(LoadingState::Loading, LoadingEvent::BackupLoaded { n_units: 65537 });
    assert_eq!(s, LoadingState::SendingUnits { next_round_backup: 1 });
}
