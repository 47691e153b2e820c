//! What each event makes of the limiter's state, stated on what the state and the event hold.

use crate::json::{Json, JsonView};
use crate::model::{
    AccountView, EpisodeKey, PendingLocalStart, QuotaGuardActivityKind, QuotaGuardPhase,
    QuotaWindowKind, RateLimitSnapshot, RuntimeView, TerminalObservation, TurnKey,
    UnmatchedStartedTurn,
};
use crate::reducer::{reduced, spec_threshold, ReducerEffect, ReducerEvent};
use crate::search::{lemma_filtered, lemma_first_where, lemma_first_where_found, lemma_placed};
use crate::settings::{QuotaAction, QuotaGuardSettings};
use vstd::prelude::*;

verus! {

/// A window of a monitored account that comes to its threshold from below it, or is at it when
/// nothing was known of it or the next reading was to fire, is answered as the settings say; where
/// neither window has come to its threshold, nothing is done. Each window is held against its own
/// threshold. A reading that is answered by a rearm is left out.
pub proof fn a_window_that_reaches_its_threshold_is_answered(
    runtime: RuntimeView,
    snapshot: RateLimitSnapshot,
    full_read: bool,
    verification: bool,
    now_ms: i64,
    settings: QuotaGuardSettings,
)
    requires
        runtime.account is Some,
        runtime.account->0.phase == QuotaGuardPhase::Monitoring,
        settings.armed,
        settings.rearm_after_reset_percent_left is None || match (
            runtime.account->0.snapshot,
            snapshot.primary,
        ) {
            (Some(before), Some(now)) => match before.primary {
                Some(window) => if window.reset_at is Some && now.reset_at is Some {
                    now.reset_at->0 <= window.reset_at->0
                } else {
                    window.used_percent < now.used_percent + 20
                },
                None => true,
            },
            _ => true,
        },
    ensures
        ({
            let account = runtime.account->0;
            let event = ReducerEvent::Snapshot { snapshot, full_read, verification, now_ms };
            let (next, effects) = reduced(runtime, event, settings);
            let after = next.account->0;
            let turns = account.local_turn_registry;
            let forced = account.snapshot is None || account.fire_at_or_above_on_next_snapshot;
            let primary_was_at = account.snapshot matches Some(before)
                && before.primary matches Some(window) && window.used_percent
                >= settings.primary_threshold_percent;
            let secondary_was_at = account.snapshot matches Some(before)
                && before.secondary matches Some(window) && window.used_percent
                >= settings.secondary_threshold_percent;
            let primary = (snapshot.primary matches Some(window) && window.used_percent
                >= settings.primary_threshold_percent) && (forced || !primary_was_at);
            let secondary = (snapshot.secondary matches Some(window) && window.used_percent
                >= settings.secondary_threshold_percent) && (forced || !secondary_was_at);
            &&& next.account is Some
            &&& next == (RuntimeView { account: next.account, ..runtime })
            &&& after == (AccountView {
                phase: after.phase,
                snapshot: Some(snapshot),
                updated_at: now_ms,
                fire_at_or_above_on_next_snapshot: false,
                ..account
            })
            &&& !primary && !secondary ==> effects.len() == 0 && after.phase
                == QuotaGuardPhase::Monitoring
            &&& (primary || secondary) && settings.action == QuotaAction::NotifyOnly ==> {
                &&& after.phase == QuotaGuardPhase::Monitoring
                &&& effects.len() == 1
                &&& effects[0] matches ReducerEffect::Notify { episode }
                &&& episode matches EpisodeKey::Threshold {
                    account_key,
                    window,
                    threshold_percent,
                    resets_at,
                }
                &&& account_key == account.account_key
                &&& resets_at is None
                &&& primary ==> window == QuotaWindowKind::Primary && threshold_percent
                    == settings.primary_threshold_percent
                &&& !primary ==> window == QuotaWindowKind::Secondary && threshold_percent
                    == settings.secondary_threshold_percent
            }
            &&& (primary || secondary) && settings.action != QuotaAction::NotifyOnly ==> {
                &&& after.phase == QuotaGuardPhase::Tripped
                &&& effects.len() == turns.len() + 2 + (if settings.action
                    == QuotaAction::Interrupt { 2int } else { 0int })
                &&& effects[0] == ReducerEffect::SetProcessClosed
                &&& effects[1] == ReducerEffect::SuspendExternalEngines
                &&& forall|i: int|
                    0 <= i < turns.len() ==> (#[trigger] effects[i + 2]) == (
                    ReducerEffect::Interrupt {
                        turn: turns[i],
                        generation: 0,
                        operation_id: 0,
                        attempt: 1,
                    })
                &&& settings.action == QuotaAction::Interrupt ==> effects[effects.len() - 2]
                    == ReducerEffect::PersistDisarmed && effects[effects.len() - 1]
                    == ReducerEffect::SetProcessOpen
            }
        }),
{
}

/// A reset of the primary window, seen by a later reset time, or by a fall of twenty points where
/// a reset time is missing, rearms an account that is to be rearmed, in whatever phase it is and
/// whether or not it is armed: it is monitored again, what was suspended is resumed, the process
/// is opened, and the threshold is set to what leaves the asked share, but not below the use.
pub proof fn a_reset_rearms(
    runtime: RuntimeView,
    snapshot: RateLimitSnapshot,
    full_read: bool,
    verification: bool,
    now_ms: i64,
    settings: QuotaGuardSettings,
)
    requires
        runtime.account is Some,
        runtime.account->0.snapshot is Some,
        runtime.account->0.snapshot->0.primary is Some,
        snapshot.primary is Some,
        settings.rearm_after_reset_percent_left is Some,
        settings.rearm_after_reset_percent_left->0 <= 100,
        ({
            let window = runtime.account->0.snapshot->0.primary->0;
            let now = snapshot.primary->0;
            if window.reset_at is Some && now.reset_at is Some {
                now.reset_at->0 > window.reset_at->0
            } else {
                window.used_percent >= now.used_percent + 20
            }
        }),
    ensures
        ({
            let account = runtime.account->0;
            let event = ReducerEvent::Snapshot { snapshot, full_read, verification, now_ms };
            let (next, effects) = reduced(runtime, event, settings);
            let after = next.account->0;
            let left = settings.rearm_after_reset_percent_left->0;
            let used = snapshot.primary->0.used_percent;
            &&& next.account is Some
            &&& next == (RuntimeView { account: next.account, ..runtime })
            &&& after == (AccountView {
                phase: QuotaGuardPhase::Monitoring,
                snapshot: Some(snapshot),
                updated_at: now_ms,
                activity_entries: after.activity_entries,
                fire_at_or_above_on_next_snapshot: used >= 100 - left,
                ..account
            })
            &&& after.activity_entries.len() > 0
            &&& after.activity_entries.last().kind == QuotaGuardActivityKind::StateChanged
            &&& after.activity_entries.last().timestamp == now_ms
            &&& effects.len() == 3
            &&& effects[0] == ReducerEffect::ResumeExternalEngines
            &&& effects[1] == ReducerEffect::SetProcessOpen
            &&& effects[2] matches ReducerEffect::PersistAutoRearm { threshold_percent }
            &&& used >= 100 - left ==> threshold_percent == used
            &&& used < 100 - left ==> threshold_percent == 100 - left
        }),
{
}

/// A disarmed account asks for higher thresholds exactly where one of its uses is above the lower
/// of the two thresholds, and then for thresholds at the higher use. It takes note of the reading
/// and changes in nothing else. A reading that is answered by a rearm is left out.
pub proof fn a_disarmed_account_raises_its_thresholds(
    runtime: RuntimeView,
    snapshot: RateLimitSnapshot,
    full_read: bool,
    verification: bool,
    now_ms: i64,
    settings: QuotaGuardSettings,
)
    requires
        runtime.account is Some,
        !settings.armed,
        settings.rearm_after_reset_percent_left is None,
    ensures
        ({
            let account = runtime.account->0;
            let event = ReducerEvent::Snapshot { snapshot, full_read, verification, now_ms };
            let (next, effects) = reduced(runtime, event, settings);
            let above = |window: Option<crate::model::RateLimitWindow>|
                (window matches Some(w) && (w.used_percent > settings.primary_threshold_percent
                    || w.used_percent > settings.secondary_threshold_percent));
            &&& next == (RuntimeView {
                account: Some(
                    AccountView { snapshot: Some(snapshot), updated_at: now_ms, ..account },
                ),
                ..runtime
            })
            &&& !above(snapshot.primary) && !above(snapshot.secondary) ==> effects.len() == 0
            &&& above(snapshot.primary) || above(snapshot.secondary) ==> {
                &&& effects.len() == 1
                &&& effects[0] matches ReducerEffect::RaiseThresholds { used_percent }
                &&& snapshot.primary matches Some(w) ==> w.used_percent <= used_percent
                &&& snapshot.secondary matches Some(w) ==> w.used_percent <= used_percent
                &&& (snapshot.primary matches Some(w) && w.used_percent == used_percent) || (
                snapshot.secondary matches Some(w) && w.used_percent == used_percent)
            }
        }),
{
}

/// An armed account that is not monitored is not tripped anew by a reading, whatever the reading
/// says: one that blocks keeps what it has suspended suspended, any other does nothing.
pub proof fn a_reading_outside_monitoring_is_noted(
    runtime: RuntimeView,
    snapshot: RateLimitSnapshot,
    full_read: bool,
    verification: bool,
    now_ms: i64,
    settings: QuotaGuardSettings,
)
    requires
        runtime.account is Some,
        settings.armed,
        settings.rearm_after_reset_percent_left is None,
        runtime.account->0.phase != QuotaGuardPhase::Monitoring,
    ensures
        ({
            let account = runtime.account->0;
            let event = ReducerEvent::Snapshot { snapshot, full_read, verification, now_ms };
            let (next, effects) = reduced(runtime, event, settings);
            &&& next == (RuntimeView {
                account: Some(
                    AccountView { snapshot: Some(snapshot), updated_at: now_ms, ..account },
                ),
                ..runtime
            })
            &&& account.phase == QuotaGuardPhase::Tripped && settings.action == QuotaAction::Block
                ==> effects.len() == 1 && effects[0] == (
            ReducerEffect::MaintainExternalEngineSuspension { prevent_new_sessions: true })
            &&& account.phase != QuotaGuardPhase::Tripped || settings.action != QuotaAction::Block
                ==> effects.len() == 0
        }),
{
}

/// Asked to respond at once, a monitored account is answered exactly where the use that was last
/// read of a window is at the window's threshold, armed or not. In another phase nothing happens.
pub proof fn a_response_that_is_asked_for_needs_a_window_at_its_threshold(
    runtime: RuntimeView,
    now_ms: i64,
    settings: QuotaGuardSettings,
)
    requires
        runtime.account is Some,
    ensures
        ({
            let account = runtime.account->0;
            let (next, effects) = reduced(runtime, ReducerEvent::ApplyActionNow { now_ms }, settings);
            let after = next.account->0;
            let turns = account.local_turn_registry;
            let primary = account.snapshot matches Some(known)
                && known.primary matches Some(window) && window.used_percent
                >= settings.primary_threshold_percent;
            let secondary = account.snapshot matches Some(known)
                && known.secondary matches Some(window) && window.used_percent
                >= settings.secondary_threshold_percent;
            &&& account.phase != QuotaGuardPhase::Monitoring || !(primary || secondary) ==> next
                == runtime && effects.len() == 0
            &&& account.phase == QuotaGuardPhase::Monitoring && (primary || secondary) ==> {
                &&& next.account is Some
                &&& next == (RuntimeView { account: next.account, ..runtime })
                &&& after == (AccountView { phase: after.phase, updated_at: now_ms, ..account })
                &&& settings.action == QuotaAction::NotifyOnly ==> {
                    &&& after.phase == QuotaGuardPhase::Monitoring
                    &&& effects.len() == 1
                    &&& effects[0] matches ReducerEffect::Notify { episode }
                    &&& episode matches EpisodeKey::Threshold { window, threshold_percent, .. }
                    &&& primary ==> window == QuotaWindowKind::Primary && threshold_percent
                        == settings.primary_threshold_percent
                    &&& !primary ==> window == QuotaWindowKind::Secondary && threshold_percent
                        == settings.secondary_threshold_percent
                }
                &&& settings.action != QuotaAction::NotifyOnly ==> {
                    &&& after.phase == QuotaGuardPhase::Tripped
                    &&& effects.len() >= turns.len() + 2
                    &&& effects[0] == ReducerEffect::SetProcessClosed
                    &&& effects[1] == ReducerEffect::SuspendExternalEngines
                    &&& forall|i: int|
                        0 <= i < turns.len() ==> (#[trigger] effects[i + 2]) == (
                        ReducerEffect::Interrupt {
                            turn: turns[i],
                            generation: 0,
                            operation_id: 0,
                            attempt: 1,
                        })
                }
                &&& settings.action == QuotaAction::Interrupt ==> effects.last()
                    == ReducerEffect::SetProcessOpen && effects[effects.len() - 2]
                    == ReducerEffect::PersistDisarmed
                &&& settings.action == QuotaAction::Block ==> effects.len() == turns.len() + 2
            }
        }),
{
}

/// Enabling monitors the account in the next generation, under its name, and keeps what was known
/// of it; where nothing was known, the account is new and healthy. The process is opened.
pub proof fn enabling_keeps_what_is_known(
    runtime: RuntimeView,
    account_key: String,
    now_ms: i64,
    settings: QuotaGuardSettings,
)
    ensures
        ({
            let (next, effects) = reduced(
                runtime,
                ReducerEvent::Enable { account_key, now_ms },
                settings,
            );
            let after = next.account->0;
            &&& next.account is Some
            &&& runtime.lifecycle_generation < u64::MAX ==> next.lifecycle_generation
                == runtime.lifecycle_generation + 1
            &&& runtime.lifecycle_generation == u64::MAX ==> next.lifecycle_generation == u64::MAX
            &&& next == (RuntimeView {
                lifecycle_generation: next.lifecycle_generation,
                account: next.account,
                ..runtime
            })
            &&& after.phase == QuotaGuardPhase::Monitoring
            &&& after.account_key == account_key
            &&& after.updated_at == now_ms
            &&& runtime.account matches Some(known) ==> after == (AccountView {
                account_key,
                phase: QuotaGuardPhase::Monitoring,
                updated_at: now_ms,
                ..known
            })
            &&& runtime.account is None ==> {
                &&& after.snapshot is None
                &&& after.monitor_healthy
                &&& after.last_error is None
                &&& after.local_turn_registry.len() == 0
                &&& after.pending_interrupt_index.len() == 0
                &&& after.pending_local_starts.len() == 0
                &&& after.unmatched_started_turns.len() == 0
                &&& after.terminal_observations.len() == 0
                &&& after.suspended_external_engines.len() == 0
                &&& after.associated_workspace_ids.len() == 0
                &&& after.fired_episodes.len() == 0
                &&& !after.fire_at_or_above_on_next_snapshot
            }
            &&& effects == seq![ReducerEffect::SetProcessOpen]
        }),
{
}

/// Disabling and resuming change the phase and the time and nothing else; both resume what was
/// suspended and then open the process.
pub proof fn disabling_and_resuming_change_the_phase_alone(
    runtime: RuntimeView,
    now_ms: i64,
    settings: QuotaGuardSettings,
)
    requires
        runtime.account is Some,
    ensures
        ({
            let account = runtime.account->0;
            let off = reduced(runtime, ReducerEvent::Disable { now_ms }, settings);
            let on = reduced(runtime, ReducerEvent::Resume { now_ms }, settings);
            &&& off.0 == (RuntimeView {
                account: Some(
                    AccountView { phase: QuotaGuardPhase::Disabled, updated_at: now_ms, ..account },
                ),
                ..runtime
            })
            &&& on.0 == (RuntimeView {
                account: Some(
                    AccountView {
                        phase: QuotaGuardPhase::Monitoring,
                        updated_at: now_ms,
                        ..account
                    },
                ),
                ..runtime
            })
            &&& off.1 == seq![ReducerEffect::ResumeExternalEngines, ReducerEffect::SetProcessOpen]
            &&& on.1 == seq![ReducerEffect::ResumeExternalEngines, ReducerEffect::SetProcessOpen]
        }),
{
}

/// A change of the settings, a rearm by hand, and an interrupt or a question about one that
/// failed, change nothing and do nothing.
pub proof fn some_events_only_pass(
    runtime: RuntimeView,
    event: ReducerEvent,
    settings: QuotaGuardSettings,
)
    requires
        event is SettingsChanged || event is Rearm || event is InterruptRequestFailed
            || event is InterruptReconcileFailed,
    ensures
        reduced(runtime, event, settings) == (runtime, Seq::<ReducerEffect>::empty()),
{
}

/// A turn that starts is owned where no start of its session and workspace waits whose thread is
/// open. The first start of this generation that waits for its thread is answered by it and waits
/// no longer; the other starts stay.
pub proof fn a_started_turn_is_owned(
    runtime: RuntimeView,
    turn: TurnKey,
    now_ms: i64,
    settings: QuotaGuardSettings,
    at: int,
)
    requires
        runtime.account is Some,
        runtime.account->0.phase != QuotaGuardPhase::Disabled,
        forall|i: int|
            0 <= i < runtime.account->0.local_turn_registry.len() ==> (
            #[trigger] runtime.account->0.local_turn_registry[i]).id() != turn.id(),
        ({
            let starts = runtime.account->0.pending_local_starts;
            let generation = runtime.lifecycle_generation;
            let waits = |start: PendingLocalStart|
                start.generation == generation && start.session_epoch@ == turn.session_epoch@
                    && start.workspace_id@ == turn.workspace_id@;
            let named = |start: PendingLocalStart|
                match (start.response_thread_id, start.expected_thread_id) {
                    (Some(thread), _) => thread@ == turn.thread_id@,
                    (None, Some(thread)) => thread@ == turn.thread_id@,
                    (None, None) => false,
                };
            &&& 0 <= at <= starts.len()
            &&& forall|i: int|
                0 <= i < at ==> !(waits(#[trigger] starts[i]) && named(starts[i]))
            &&& at < starts.len() ==> waits(starts[at]) && named(starts[at])
            &&& at == starts.len() ==> forall|i: int|
                0 <= i < starts.len() ==> !(waits(#[trigger] starts[i])
                    && starts[i].response_thread_id is None && starts[i].expected_thread_id is None)
        }),
    ensures
        ({
            let account = runtime.account->0;
            let starts = account.pending_local_starts;
            let (next, effects) = reduced(
                runtime,
                ReducerEvent::TurnStarted { turn, now_ms },
                settings,
            );
            &&& effects.len() == 0
            &&& next == (RuntimeView {
                account: Some(
                    AccountView {
                        local_turn_registry: account.local_turn_registry.push(turn),
                        pending_local_starts: if at < starts.len() {
                            starts.remove(at)
                        } else {
                            starts
                        },
                        updated_at: now_ms,
                        ..account
                    },
                ),
                ..runtime
            })
        }),
{
    let starts = runtime.account->0.pending_local_starts;
    let generation = runtime.lifecycle_generation;
    let claimed = |start: PendingLocalStart| crate::reducer::claims(start, generation, turn);
    assert forall|i: int| 0 <= i < at implies !claimed(#[trigger] starts[i]) by {}
    lemma_first_where(starts, claimed, at);
    if at == starts.len() {
        let open = |start: PendingLocalStart| crate::reducer::may_claim(start, generation, turn);
        assert forall|i: int| 0 <= i < starts.len() implies !open(#[trigger] starts[i]) by {}
        lemma_first_where(starts, open, at);
    }
}

/// A turn that no waiting start names, while one waits in its session and workspace whose thread is
/// open, is put aside for ten seconds, once; where thirty-two are put aside already, the account
/// says so instead. It is not owned, and no start is answered.
pub proof fn a_turn_that_may_have_been_asked_for_is_put_aside(
    runtime: RuntimeView,
    turn: TurnKey,
    now_ms: i64,
    settings: QuotaGuardSettings,
    open: int,
)
    requires
        runtime.account is Some,
        runtime.account->0.phase != QuotaGuardPhase::Disabled,
        forall|i: int|
            0 <= i < runtime.account->0.local_turn_registry.len() ==> (
            #[trigger] runtime.account->0.local_turn_registry[i]).id() != turn.id(),
        forall|i: int|
            0 <= i < runtime.account->0.unmatched_started_turns.len() ==> (
            #[trigger] runtime.account->0.unmatched_started_turns[i]).turn.id() != turn.id(),
        ({
            let starts = runtime.account->0.pending_local_starts;
            let generation = runtime.lifecycle_generation;
            let waits = |start: PendingLocalStart|
                start.generation == generation && start.session_epoch@ == turn.session_epoch@
                    && start.workspace_id@ == turn.workspace_id@;
            &&& 0 <= open < starts.len()
            &&& waits(starts[open])
            &&& starts[open].response_thread_id is None
            &&& starts[open].expected_thread_id is None
            &&& forall|i: int|
                0 <= i < starts.len() && waits(#[trigger] starts[i]) ==> match (
                    starts[i].response_thread_id,
                    starts[i].expected_thread_id,
                ) {
                    (Some(thread), _) => thread@ != turn.thread_id@,
                    (None, Some(thread)) => thread@ != turn.thread_id@,
                    (None, None) => true,
                }
        }),
        now_ms <= i64::MAX - 10_000,
    ensures
        ({
            let account = runtime.account->0;
            let generation = runtime.lifecycle_generation;
            let (next, effects) = reduced(
                runtime,
                ReducerEvent::TurnStarted { turn, now_ms },
                settings,
            );
            if account.unmatched_started_turns.len() < 32 {
                &&& next.account == Some(
                    AccountView {
                        unmatched_started_turns: account.unmatched_started_turns.push(
                            UnmatchedStartedTurn { turn, generation, observed_at: now_ms },
                        ),
                        updated_at: now_ms,
                        ..account
                    },
                )
                &&& effects == seq![
                    ReducerEffect::ScheduleProvisionalExpiry {
                        turn,
                        generation,
                        terminal: false,
                        deadline: (now_ms + 10_000) as i64,
                    },
                ]
            } else {
                &&& next.account == Some(
                    AccountView {
                        last_error: Some("unmatched started turn buffer is full"@),
                        updated_at: now_ms,
                        ..account
                    },
                )
                &&& effects.len() == 0
            }
        }),
{
    let starts = runtime.account->0.pending_local_starts;
    let generation = runtime.lifecycle_generation;
    let claimed = |start: PendingLocalStart| crate::reducer::claims(start, generation, turn);
    assert forall|i: int| 0 <= i < starts.len() implies !claimed(#[trigger] starts[i]) by {}
    lemma_first_where(starts, claimed, starts.len() as int);
    lemma_first_where_found(
        starts,
        |start: PendingLocalStart| crate::reducer::may_claim(start, generation, turn),
    );
    let turns = runtime.account->0.unmatched_started_turns;
    let same = |u: UnmatchedStartedTurn| u.turn.id() == turn.id();
    assert forall|i: int| 0 <= i < turns.len() implies !same(#[trigger] turns[i]) by {}
    lemma_first_where(turns, same, turns.len() as int);
}

/// An owned turn that ends with the error that the usage limit is exceeded, written in either of
/// the two places and either of the two spellings, trips a monitored account that is armed and
/// does more than notify: the process is closed, the limits are read in full and the episode of
/// this generation is finished.
pub proof fn an_owned_turn_that_hits_the_limit_trips(
    runtime: RuntimeView,
    turn: TurnKey,
    status: String,
    error: Json,
    now_ms: i64,
    settings: QuotaGuardSettings,
    owned: int,
)
    requires
        runtime.account is Some,
        runtime.account->0.phase == QuotaGuardPhase::Monitoring,
        settings.armed,
        settings.action == QuotaAction::Interrupt || settings.action == QuotaAction::Block,
        0 <= owned < runtime.account->0.local_turn_registry.len(),
        runtime.account->0.local_turn_registry[owned].id() == turn.id(),
        ({
            let limit = Some(JsonView::Text("usageLimitExceeded"@));
            let here = error@.get("codexErrorInfo"@) == limit || (error@.get("codexErrorInfo"@)
                is None && error@.get("codex_error_info"@) == limit);
            let below = error@.get("codexErrorInfo"@) is None && error@.get("codex_error_info"@)
                is None && (error@.get("error"@) matches Some(inner) && (inner.get(
                "codexErrorInfo"@,
            ) == limit || (inner.get("codexErrorInfo"@) is None && inner.get("codex_error_info"@)
                == limit)));
            here || below
        }),
    ensures
        ({
            let account = runtime.account->0;
            let event = ReducerEvent::TurnTerminal { turn, status, error: Some(error), now_ms };
            let (next, effects) = reduced(runtime, event, settings);
            let after = next.account->0;
            &&& next.account is Some
            &&& next == (RuntimeView { account: next.account, ..runtime })
            &&& after.phase == QuotaGuardPhase::Tripped
            &&& after.updated_at == now_ms
            &&& after == (AccountView {
                phase: after.phase,
                updated_at: after.updated_at,
                local_turn_registry: after.local_turn_registry,
                pending_interrupt_index: after.pending_interrupt_index,
                fired_episodes: after.fired_episodes,
                ..account
            })
            &&& effects.len() == 3
            &&& effects[0] == ReducerEffect::SetProcessClosed
            &&& effects[1] == ReducerEffect::ReadFullRateLimits
            &&& effects[2] == (ReducerEffect::FinalizeClosedEpisode {
                transition_id: runtime.lifecycle_generation,
            })
        }),
{
    assert(runtime.account->0.owns(turn));
}

/// The end of a turn leaves the phase as it is and closes nothing where the account is not
/// monitored, not armed or only notifies, where the turn is not owned, or where the error is
/// missing or says something else.
pub proof fn any_other_end_trips_nothing(
    runtime: RuntimeView,
    turn: TurnKey,
    status: String,
    error: Option<Json>,
    now_ms: i64,
    settings: QuotaGuardSettings,
)
    requires
        runtime.account is Some,
        ({
            let account = runtime.account->0;
            let names = |document: JsonView|
                match (document.get("codexErrorInfo"@), document.get("codex_error_info"@)) {
                    (Some(info), _) => Some(info),
                    (None, other) => other,
                };
            ||| account.phase != QuotaGuardPhase::Monitoring
            ||| !settings.armed
            ||| settings.action == QuotaAction::NotifyOnly
            ||| forall|i: int|
                0 <= i < account.local_turn_registry.len() ==> (
                #[trigger] account.local_turn_registry[i]).id() != turn.id()
            ||| error is None
            ||| names(error->0@) matches Some(info) && info != JsonView::Text(
                "usageLimitExceeded"@,
            )
            ||| names(error->0@) is None && (error->0@.get("error"@) matches Some(inner)
                ==> names(inner) != Some(JsonView::Text("usageLimitExceeded"@)))
        }),
    ensures
        ({
            let event = ReducerEvent::TurnTerminal { turn, status, error, now_ms };
            let (next, effects) = reduced(runtime, event, settings);
            &&& next.account is Some
            &&& next.account->0.phase == runtime.account->0.phase
            &&& next.account->0.fired_episodes == runtime.account->0.fired_episodes
            &&& forall|i: int|
                0 <= i < effects.len() ==> (#[trigger] effects[i] is ScheduleProvisionalExpiry)
        }),
{
}

/// The end of a turn that was put aside is kept for ten seconds, once, so that a late answer does
/// not make the turn owned; where thirty-two ends are kept already, the account says so instead.
pub proof fn the_end_of_a_turn_put_aside_is_kept(
    runtime: RuntimeView,
    turn: TurnKey,
    status: String,
    error: Option<Json>,
    now_ms: i64,
    settings: QuotaGuardSettings,
    aside: int,
)
    requires
        runtime.account is Some,
        runtime.account->0.phase != QuotaGuardPhase::Monitoring,
        0 <= aside < runtime.account->0.unmatched_started_turns.len(),
        runtime.account->0.unmatched_started_turns[aside].turn.id() == turn.id(),
        forall|i: int|
            0 <= i < runtime.account->0.terminal_observations.len() ==> (
            #[trigger] runtime.account->0.terminal_observations[i]).turn.id() != turn.id(),
        now_ms <= i64::MAX - 10_000,
    ensures
        ({
            let account = runtime.account->0;
            let generation = runtime.lifecycle_generation;
            let event = ReducerEvent::TurnTerminal { turn, status, error, now_ms };
            let (next, effects) = reduced(runtime, event, settings);
            let after = next.account->0;
            &&& account.terminal_observations.len() < 32 ==> {
                &&& after.terminal_observations == account.terminal_observations.push(
                    TerminalObservation { turn, generation, status, error, observed_at: now_ms },
                )
                &&& effects == seq![
                    ReducerEffect::ScheduleProvisionalExpiry {
                        turn,
                        generation,
                        terminal: true,
                        deadline: (now_ms + 10_000) as i64,
                    },
                ]
            }
            &&& account.terminal_observations.len() >= 32 ==> {
                &&& after.terminal_observations == account.terminal_observations
                &&& after.last_error == Some("terminal observation buffer is full"@)
                &&& effects.len() == 0
            }
        }),
{
    let account = runtime.account->0;
    lemma_first_where_found(
        account.unmatched_started_turns,
        |u: UnmatchedStartedTurn| u.turn.id() == turn.id(),
    );
    let same = |t: TerminalObservation| t.turn.id() == turn.id();
    let ends = account.terminal_observations;
    assert forall|i: int| 0 <= i < ends.len() implies !same(#[trigger] ends[i]) by {}
    lemma_first_where(ends, same, ends.len() as int);
}

/// A start that is asked for in this generation waits in place of an earlier one of its request,
/// for ten seconds; the others wait as before. A disabled account records none.
pub proof fn a_start_that_is_asked_for_waits(
    runtime: RuntimeView,
    start: PendingLocalStart,
    now_ms: i64,
    settings: QuotaGuardSettings,
    other: PendingLocalStart,
)
    requires
        runtime.account is Some,
        now_ms <= i64::MAX - 10_000,
    ensures
        ({
            let account = runtime.account->0;
            let event = ReducerEvent::PendingStartRecorded { start, now_ms };
            let (next, effects) = reduced(runtime, event, settings);
            let after = next.account->0;
            &&& account.phase == QuotaGuardPhase::Disabled || start.generation
                != runtime.lifecycle_generation ==> next == runtime && effects.len() == 0
            &&& account.phase != QuotaGuardPhase::Disabled && start.generation
                == runtime.lifecycle_generation ==> {
                &&& next.account is Some
                &&& next == (RuntimeView { account: next.account, ..runtime })
                &&& after == (AccountView {
                    pending_local_starts: after.pending_local_starts,
                    updated_at: now_ms,
                    ..account
                })
                &&& after.pending_local_starts.contains(start)
                &&& other.request_id != start.request_id ==> (after.pending_local_starts.contains(
                    other,
                ) <==> account.pending_local_starts.contains(other))
                &&& other.request_id == start.request_id && after.pending_local_starts.contains(
                    other,
                ) ==> other == start
                &&& effects == seq![
                    ReducerEffect::ScheduleStartExpiry {
                        request_id: start.request_id,
                        generation: runtime.lifecycle_generation,
                        deadline: (now_ms + 10_000) as i64,
                    },
                ]
            }
        }),
{
    let before = runtime.account->0.pending_local_starts;
    let keep = |known: PendingLocalStart| known.request_id != start.request_id;
    let rest = before.filter(keep);
    lemma_filtered(before, keep);
    let behind = |known: PendingLocalStart| start.request_id < known.request_id;
    let at = lemma_placed(rest, start, behind);
    let after = rest.insert(at, start);
    assert(after[at] == start);
    if after.contains(other) && other != start {
        let k = choose|k: int| 0 <= k < after.len() && after[k] == other;
        let l = if k < at { k } else { k - 1 };
        assert(rest[l] == other);
        assert(rest.contains(other));
    }
    if rest.contains(other) {
        let k = choose|k: int| 0 <= k < rest.len() && rest[k] == other;
        assert(after[if k < at { k } else { k + 1 }] == other);
    }
}

/// A start that fails, or that stays unconfirmed too long, waits no longer; no other start is
/// touched. One that stays unconfirmed while the account is tripped closes the process and asks
/// for intervention. What concerns a start that does not wait changes nothing.
pub proof fn a_start_that_ends_waits_no_longer(
    runtime: RuntimeView,
    request_id: u64,
    generation: u64,
    now_ms: i64,
    settings: QuotaGuardSettings,
    at: int,
)
    requires
        runtime.account is Some,
        0 <= at <= runtime.account->0.pending_local_starts.len(),
        forall|i: int|
            0 <= i < at ==> (#[trigger] runtime.account->0.pending_local_starts[i]).request_id
                != request_id || runtime.account->0.pending_local_starts[i].generation
                != generation,
        at < runtime.account->0.pending_local_starts.len() ==> {
            &&& runtime.account->0.pending_local_starts[at].request_id == request_id
            &&& runtime.account->0.pending_local_starts[at].generation == generation
        },
    ensures
        ({
            let account = runtime.account->0;
            let starts = account.pending_local_starts;
            let failed = reduced(
                runtime,
                ReducerEvent::PendingStartFailed { request_id, generation, now_ms },
                settings,
            );
            let expired = reduced(
                runtime,
                ReducerEvent::PendingStartExpired { request_id, generation, now_ms },
                settings,
            );
            let rest = AccountView {
                pending_local_starts: starts.remove(at),
                updated_at: now_ms,
                ..account
            };
            &&& failed.1.len() == 0
            &&& at == starts.len() ==> failed.0 == runtime && expired.0 == runtime
                && expired.1.len() == 0
            &&& at < starts.len() ==> failed.0 == (RuntimeView { account: Some(rest), ..runtime })
            &&& at < starts.len() && account.phase != QuotaGuardPhase::Tripped ==> expired.0
                == failed.0 && expired.1.len() == 0
            &&& at < starts.len() && account.phase == QuotaGuardPhase::Tripped ==> {
                &&& expired.0 == (RuntimeView {
                    account: Some(
                        AccountView {
                            phase: QuotaGuardPhase::InterventionRequired,
                            last_error: Some(
                                "Local start confirmation expired while the limiter was enforcing"@,
                            ),
                            ..rest
                        },
                    ),
                    ..runtime
                })
                &&& expired.1 == seq![ReducerEffect::SetProcessClosed]
            }
        }),
{
    let starts = runtime.account->0.pending_local_starts;
    let wanted = |start: PendingLocalStart|
        crate::reducer::requested(start, request_id, generation);
    assert forall|i: int| 0 <= i < at implies !wanted(#[trigger] starts[i]) by {}
    lemma_first_where(starts, wanted, at);
}

/// A turn that was put aside too long, or an end that was kept too long, is let go, where it is of
/// the named generation; every other one stays.
pub proof fn what_was_put_aside_expires(
    runtime: RuntimeView,
    turn: TurnKey,
    generation: u64,
    terminal: bool,
    now_ms: i64,
    settings: QuotaGuardSettings,
    aside: UnmatchedStartedTurn,
    end: TerminalObservation,
)
    requires
        runtime.account is Some,
    ensures
        ({
            let account = runtime.account->0;
            let event = ReducerEvent::ProvisionalExpired { turn, generation, terminal, now_ms };
            let (next, effects) = reduced(runtime, event, settings);
            let after = next.account->0;
            &&& effects.len() == 0
            &&& next.account is Some
            &&& next == (RuntimeView { account: next.account, ..runtime })
            &&& after == (AccountView {
                unmatched_started_turns: after.unmatched_started_turns,
                terminal_observations: after.terminal_observations,
                updated_at: now_ms,
                ..account
            })
            &&& terminal ==> after.unmatched_started_turns == account.unmatched_started_turns
            &&& !terminal ==> after.terminal_observations == account.terminal_observations
            &&& !terminal ==> (after.unmatched_started_turns.contains(aside)
                <==> account.unmatched_started_turns.contains(aside) && !(aside.turn.id()
                == turn.id() && aside.generation == generation))
            &&& terminal ==> (after.terminal_observations.contains(end)
                <==> account.terminal_observations.contains(end) && !(end.turn.id() == turn.id()
                && end.generation == generation))
        }),
{
    lemma_filtered(
        runtime.account->0.unmatched_started_turns,
        |u: UnmatchedStartedTurn| u.turn.id() != turn.id() || u.generation != generation,
    );
    lemma_filtered(
        runtime.account->0.terminal_observations,
        |t: TerminalObservation| t.turn.id() != turn.id() || t.generation != generation,
    );
}

/// An answer to a start that does not wait, in this generation, session and workspace, changes
/// nothing. One that names no thread, or a thread of which no turn was put aside, is noted with the
/// start, which still waits.
pub proof fn an_answer_is_noted_with_its_start(
    runtime: RuntimeView,
    request_id: u64,
    session_epoch: String,
    workspace_id: String,
    thread_id: Option<String>,
    now_ms: i64,
    settings: QuotaGuardSettings,
    at: int,
)
    requires
        runtime.account is Some,
        ({
            let starts = runtime.account->0.pending_local_starts;
            let answered = |start: PendingLocalStart|
                start.request_id == request_id && start.generation == runtime.lifecycle_generation
                    && start.session_epoch@ == session_epoch@ && start.workspace_id@
                    == workspace_id@;
            &&& 0 <= at <= starts.len()
            &&& forall|i: int| 0 <= i < at ==> !answered(#[trigger] starts[i])
            &&& at < starts.len() ==> answered(starts[at])
        }),
        thread_id matches Some(thread) ==> forall|i: int|
            0 <= i < runtime.account->0.unmatched_started_turns.len() ==> {
                let aside = #[trigger] runtime.account->0.unmatched_started_turns[i];
                aside.generation != runtime.lifecycle_generation || aside.turn.session_epoch@
                    != session_epoch@ || aside.turn.workspace_id@ != workspace_id@
                    || aside.turn.thread_id@ != thread@
            },
    ensures
        ({
            let account = runtime.account->0;
            let starts = account.pending_local_starts;
            let event = ReducerEvent::StartResponse {
                request_id,
                session_epoch,
                workspace_id,
                thread_id,
                now_ms,
            };
            let (next, effects) = reduced(runtime, event, settings);
            &&& effects.len() == 0
            &&& at == starts.len() ==> next == runtime
            &&& at < starts.len() ==> next == (RuntimeView {
                account: Some(
                    AccountView {
                        pending_local_starts: starts.update(
                            at,
                            PendingLocalStart {
                                response_thread_id: match thread_id {
                                    Some(_) => thread_id,
                                    None => starts[at].response_thread_id,
                                },
                                response_received_at: Some(now_ms),
                                ..starts[at]
                            },
                        ),
                        updated_at: now_ms,
                        ..account
                    },
                ),
                ..runtime
            })
        }),
{
    let account = runtime.account->0;
    let starts = account.pending_local_starts;
    let generation = runtime.lifecycle_generation;
    let wanted = |start: PendingLocalStart|
        crate::reducer::answered(start, generation, request_id, session_epoch@, workspace_id@);
    assert forall|i: int| 0 <= i < at implies !wanted(#[trigger] starts[i]) by {}
    lemma_first_where(starts, wanted, at);
    if let Some(thread) = thread_id {
        let turns = account.unmatched_started_turns;
        let in_it = |u: UnmatchedStartedTurn|
            crate::reducer::in_thread(u, generation, session_epoch@, workspace_id@, thread@);
        assert forall|i: int| 0 <= i < turns.len() implies !in_it(#[trigger] turns[i]) by {}
        lemma_first_where(turns, in_it, turns.len() as int);
    }
}

/// An answer that names the thread of a turn that was put aside settles both: the start waits no
/// longer and the turn is owned, unless its end was kept, which is then let go instead.
pub proof fn an_answer_claims_the_turn_put_aside(
    runtime: RuntimeView,
    request_id: u64,
    session_epoch: String,
    workspace_id: String,
    thread_id: String,
    now_ms: i64,
    settings: QuotaGuardSettings,
    at: int,
    aside: int,
    end: int,
)
    requires
        runtime.account is Some,
        ({
            let starts = runtime.account->0.pending_local_starts;
            let turns = runtime.account->0.unmatched_started_turns;
            let ends = runtime.account->0.terminal_observations;
            let generation = runtime.lifecycle_generation;
            let answered = |start: PendingLocalStart|
                start.request_id == request_id && start.generation == generation
                    && start.session_epoch@ == session_epoch@ && start.workspace_id@
                    == workspace_id@;
            let in_it = |u: UnmatchedStartedTurn|
                u.generation == generation && u.turn.session_epoch@ == session_epoch@
                    && u.turn.workspace_id@ == workspace_id@ && u.turn.thread_id@ == thread_id@;
            &&& 0 <= at < starts.len()
            &&& forall|i: int| 0 <= i < at ==> !answered(#[trigger] starts[i])
            &&& answered(starts[at])
            &&& 0 <= aside < turns.len()
            &&& forall|i: int| 0 <= i < aside ==> !in_it(#[trigger] turns[i])
            &&& in_it(turns[aside])
            &&& 0 <= end <= ends.len()
            &&& forall|i: int|
                0 <= i < end ==> (#[trigger] ends[i]).turn.id() != turns[aside].turn.id()
            &&& end < ends.len() ==> ends[end].turn.id() == turns[aside].turn.id()
        }),
        forall|i: int|
            0 <= i < runtime.account->0.local_turn_registry.len() ==> (
            #[trigger] runtime.account->0.local_turn_registry[i]).id()
                != runtime.account->0.unmatched_started_turns[aside].turn.id(),
    ensures
        ({
            let account = runtime.account->0;
            let turn = account.unmatched_started_turns[aside].turn;
            let event = ReducerEvent::StartResponse {
                request_id,
                session_epoch,
                workspace_id,
                thread_id: Some(thread_id),
                now_ms,
            };
            let (next, effects) = reduced(runtime, event, settings);
            let settled = AccountView {
                pending_local_starts: account.pending_local_starts.remove(at),
                unmatched_started_turns: account.unmatched_started_turns.remove(aside),
                updated_at: now_ms,
                ..account
            };
            &&& effects.len() == 0
            &&& end == account.terminal_observations.len() ==> next == (RuntimeView {
                account: Some(
                    AccountView {
                        local_turn_registry: account.local_turn_registry.push(turn),
                        ..settled
                    },
                ),
                ..runtime
            })
            &&& end < account.terminal_observations.len() ==> next == (RuntimeView {
                account: Some(
                    AccountView {
                        terminal_observations: account.terminal_observations.remove(end),
                        ..settled
                    },
                ),
                ..runtime
            })
        }),
{
    let account = runtime.account->0;
    let starts = account.pending_local_starts;
    let turns = account.unmatched_started_turns;
    let ends = account.terminal_observations;
    let generation = runtime.lifecycle_generation;
    let wanted = |start: PendingLocalStart|
        crate::reducer::answered(start, generation, request_id, session_epoch@, workspace_id@);
    assert forall|i: int| 0 <= i < at implies !wanted(#[trigger] starts[i]) by {}
    lemma_first_where(starts, wanted, at);
    let in_it = |u: UnmatchedStartedTurn|
        crate::reducer::in_thread(u, generation, session_epoch@, workspace_id@, thread_id@);
    assert forall|i: int| 0 <= i < aside implies !in_it(#[trigger] turns[i]) by {}
    lemma_first_where(turns, in_it, aside);
    let turn = turns[aside].turn;
    let same = |t: TerminalObservation| t.turn.id() == turn.id();
    assert forall|i: int| 0 <= i < end implies !same(#[trigger] ends[i]) by {}
    lemma_first_where(ends, same, end);
    let noted = starts.update(
        at,
        PendingLocalStart {
            response_thread_id: Some(thread_id),
            response_received_at: Some(now_ms),
            ..starts[at]
        },
    );
    assert(noted.remove(at) =~= starts.remove(at));
}

/// Each window is held to its own threshold, and a hard limit is reached at full use.
pub proof fn each_window_is_held_to_its_own_threshold(settings: QuotaGuardSettings)
    ensures
        spec_threshold(settings, QuotaWindowKind::Primary) == settings.primary_threshold_percent,
        spec_threshold(settings, QuotaWindowKind::Secondary)
            == settings.secondary_threshold_percent,
        spec_threshold(settings, QuotaWindowKind::HardLimit) == 100,
{
}

} // verus!
