//! The decisions of the backup loading mechanism: which units and which
//! starting round are handed on, as a state machine driven by the outcomes
//! of loading the backup, handing the units on and hearing from unit
//! collection.

use vstd::prelude::*;
use crate::nodes::Round;

verus! {

/// Where the loading mechanism stands.
#[derive(Clone, Copy, Debug, PartialEq, Eq, Structural)]
pub enum LoadingState {
    /// The backup is being loaded.
    Loading,
    /// The loaded units are being handed on; the backup ends before `next_round_backup`.
    SendingUnits { next_round_backup: Round },
    /// Waiting for unit collection to report the next round it found.
    AwaitingCollection { next_round_backup: Round },
    /// A starting round (or none) has been sent.
    Finished,
}

/// What happened outside.
#[derive(Clone, Copy, Debug, PartialEq, Eq, Structural)]
pub enum LoadingEvent {
    /// The backup was loaded and checked, and holds `n_units` units.
    BackupLoaded { n_units: usize },
    /// The backup could not be loaded.
    BackupFailed,
    /// The loaded units were handed on.
    UnitsSent,
    /// The loaded units could not be handed on.
    UnitsNotSent,
    /// Unit collection reports the next round.
    CollectionRound(Round),
    /// No report came from unit collection.
    CollectionFailed,
}

/// What to do next.
#[derive(Clone, Copy, Debug, PartialEq, Eq, Structural)]
pub enum LoadingAction {
    /// Hand the loaded units on.
    SendUnits,
    /// Wait for the report of unit collection.
    AwaitCollection,
    /// Send the starting round, or `None` when the node must not start from the backup.
    SendStartingRound(Option<Round>),
    /// Nothing: the event does not belong to this state.
    Ignore,
}

/// The round after the last unit of a backup holding `n_units` units,
/// as a round (wrapping after `Round::MAX`).
pub open spec fn backup_round(n_units: usize) -> Round {
    (n_units % 0x1_0000) as Round
}

/// The starting round: the backup's next round, unless the backup is behind
/// what unit collection found.
pub open spec fn spec_starting_round(next_round_backup: Round, next_round_collection: Round) -> Option<Round> {
    if next_round_backup < next_round_collection {
        None
    } else {
        Some(next_round_backup)
    }
}

/// The transitions of the loading mechanism.
pub open spec fn spec_loading_step(state: LoadingState, event: LoadingEvent) -> (LoadingState, LoadingAction) {
    match (state, event) {
        (LoadingState::Loading, LoadingEvent::BackupLoaded { n_units }) => (
            LoadingState::SendingUnits { next_round_backup: backup_round(n_units) },
            LoadingAction::SendUnits,
        ),
        (LoadingState::Loading, LoadingEvent::BackupFailed) => (
            LoadingState::Finished,
            LoadingAction::SendStartingRound(None),
        ),
        (LoadingState::SendingUnits { next_round_backup }, LoadingEvent::UnitsSent) => (
            LoadingState::AwaitingCollection { next_round_backup },
            LoadingAction::AwaitCollection,
        ),
        (LoadingState::SendingUnits { .. }, LoadingEvent::UnitsNotSent) => (
            LoadingState::Finished,
            LoadingAction::SendStartingRound(None),
        ),
        (
            LoadingState::AwaitingCollection { next_round_backup },
            LoadingEvent::CollectionRound(next_round_collection),
        ) => (
            LoadingState::Finished,
            LoadingAction::SendStartingRound(
                spec_starting_round(next_round_backup, next_round_collection),
            ),
        ),
        (LoadingState::AwaitingCollection { .. }, LoadingEvent::CollectionFailed) => (
            LoadingState::Finished,
            LoadingAction::SendStartingRound(None),
        ),
        _ => (state, LoadingAction::Ignore),
    }
}

/// If loaded units are compatible with the unit collection result (the
/// backup reaches at least the round that unit collection found), the
/// starting round is the round after the backup; otherwise there is none.
pub fn starting_round(next_round_backup: Round, next_round_collection: Round) -> (r: Option<Round>)
    ensures
        r == spec_starting_round(next_round_backup, next_round_collection),
{
    if next_round_backup < next_round_collection {
        None
    } else {
        Some(next_round_backup)
    }
}

/// One step of the loading mechanism.
pub fn loading_step(state: LoadingState, event: LoadingEvent) -> (res: (LoadingState, LoadingAction))
    ensures
        res == spec_loading_step(state, event),
{
    match (state, event) {
        (LoadingState::Loading, LoadingEvent::BackupLoaded { n_units }) => {
            let next_round_backup = n_units as Round;
            assert(next_round_backup == backup_round(n_units)) by (bit_vector)
                requires
                    next_round_backup == n_units as Round,
            ;
            (LoadingState::SendingUnits { next_round_backup }, LoadingAction::SendUnits)
        },
        (LoadingState::Loading, LoadingEvent::BackupFailed) => (
            LoadingState::Finished,
            LoadingAction::SendStartingRound(None),
        ),
        (LoadingState::SendingUnits { next_round_backup }, LoadingEvent::UnitsSent) => (
            LoadingState::AwaitingCollection { next_round_backup },
            LoadingAction::AwaitCollection,
        ),
        (LoadingState::SendingUnits { .. }, LoadingEvent::UnitsNotSent) => (
            LoadingState::Finished,
            LoadingAction::SendStartingRound(None),
        ),
        (
            LoadingState::AwaitingCollection { next_round_backup },
            LoadingEvent::CollectionRound(next_round_collection),
        ) => (
            LoadingState::Finished,
            LoadingAction::SendStartingRound(starting_round(next_round_backup, next_round_collection)),
        ),
        (LoadingState::AwaitingCollection { .. }, LoadingEvent::CollectionFailed) => (
            LoadingState::Finished,
            LoadingAction::SendStartingRound(None),
        ),
        _ => (state, LoadingAction::Ignore),
    }
}

/// A run in which everything succeeds: the units of the backup are handed
/// on, and the starting round is the round after the backup exactly when
/// the backup reaches the round that unit collection found.
pub proof fn lemma_successful_run(n_units: usize, next_round_collection: Round)
    ensures
        ({
            let (s1, a1) = spec_loading_step(LoadingState::Loading, LoadingEvent::BackupLoaded { n_units });
            let (s2, a2) = spec_loading_step(s1, LoadingEvent::UnitsSent);
            let (s3, a3) = spec_loading_step(s2, LoadingEvent::CollectionRound(next_round_collection));
            &&& a1 == LoadingAction::SendUnits
            &&& a2 == LoadingAction::AwaitCollection
            &&& s3 == LoadingState::Finished
            &&& a3 == LoadingAction::SendStartingRound(
                if backup_round(n_units) < next_round_collection {
                    None
                } else {
                    Some(backup_round(n_units))
                },
            )
        }),
{
}

/// Every failure ends the mechanism with no starting round.
pub proof fn lemma_failure_sends_none(state: LoadingState, event: LoadingEvent)
    requires
        event == LoadingEvent::BackupFailed || event == LoadingEvent::UnitsNotSent || event
            == LoadingEvent::CollectionFailed,
        spec_loading_step(state, event).1 != LoadingAction::Ignore,
    ensures
        spec_loading_step(state, event) == (LoadingState::Finished, LoadingAction::SendStartingRound(None)),
{
}

/// The starting round is the backup's next round when the backup reaches
/// the round that unit collection found, and there is none exactly when
/// the backup is behind it.
pub proof fn lemma_starting_round_not_behind(next_round_backup: Round, next_round_collection: Round)
    ensures
        spec_starting_round(next_round_backup, next_round_collection) matches Some(r) ==> r
            >= next_round_collection && r == next_round_backup,
        spec_starting_round(next_round_backup, next_round_collection) is None <==> next_round_backup
            < next_round_collection,
{
}

/// A backup of `n` units, `n` a round, ends before round `n`.
pub proof fn lemma_backup_round_is_count(n_units: usize)
    requires
        n_units <= Round::MAX,
    ensures
        backup_round(n_units) == n_units,
{
}

/// Once finished, the mechanism ignores everything.
pub proof fn lemma_finished_is_final(event: LoadingEvent)
    ensures
        spec_loading_step(LoadingState::Finished, event) == (LoadingState::Finished, LoadingAction::Ignore),
{
}

} // verus!
