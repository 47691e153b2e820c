//! What holds of every step of the limiter's state machine.

use crate::json::Json;
use crate::model::{
    episode_views, ordered_interrupts, ordered_starts, snapshot_view, starts_stay_ordered,
    unique_interrupts, with_episode, AccountView, EpisodeKey, EpisodeView, PendingInterrupt,
    PendingLocalStart, QuotaGuardPhase, QuotaWindowKind, RateLimitSnapshot, RuntimeView, TurnKey,
    UnmatchedStartedTurn,
};
use crate::reducer::{
    after_snapshot, after_start_failed, after_start_recorded, after_start_response,
    after_turn_started, after_turn_terminal, answered, claims, confirmation_deadline, hits_limit, in_thread,
    interrupts, may_claim, owning, promoted, rearm_threshold, reduced, requested, reset_between,
    spec_fired, tripped, use_of, without_request, ReducerEffect, ReducerEvent,
};
use crate::interrupts::{
    disowned, is_pending, is_request, next_request, rehydrated, request_at, requests_are_added_once,
};
use crate::search::{first_where, lemma_first_where_found};
use crate::settings::{QuotaAction, QuotaGuardSettings};
use crate::text::precedes;
use vstd::prelude::*;

verus! {

proof fn lemma_filter_is_subsequence<T>(s: Seq<T>, keep: spec_fn(T) -> bool)
    ensures
        s.filter(keep).len() <= s.len(),
        forall|i: int|
            0 <= i < s.filter(keep).len() ==> exists|k: int|
                0 <= k < s.len() && keep(s[k]) && s[k] == #[trigger] s.filter(keep)[i],
        forall|i: int, j: int|
            0 <= i < j < s.filter(keep).len() ==> exists|k: int, l: int|
                0 <= k < l < s.len() && s[k] == #[trigger] s.filter(keep)[i] && s[l]
                    == #[trigger] s.filter(keep)[j],
    decreases s.len(),
{
    reveal(Seq::filter);
    if s.len() > 0 {
        let rest = s.drop_last();
        lemma_filter_is_subsequence(rest, keep);
        assert forall|i: int| 0 <= i < s.filter(keep).len() implies exists|k: int|
            0 <= k < s.len() && keep(s[k]) && s[k] == #[trigger] s.filter(keep)[i] by {
            if i < rest.filter(keep).len() {
                let k = choose|k: int|
                    0 <= k < rest.len() && keep(rest[k]) && rest[k] == rest.filter(keep)[i];
                assert(s[k] == s.filter(keep)[i]);
            } else {
                assert(s[s.len() - 1] == s.filter(keep)[i]);
            }
        }
        assert forall|i: int, j: int| 0 <= i < j < s.filter(keep).len() implies exists|
            k: int,
            l: int,
        |
            0 <= k < l < s.len() && s[k] == #[trigger] s.filter(keep)[i] && s[l]
                == #[trigger] s.filter(keep)[j] by {
            if j < rest.filter(keep).len() {
                let (k, l) = choose|k: int, l: int|
                    0 <= k < l < rest.len() && rest[k] == rest.filter(keep)[i] && rest[l]
                        == rest.filter(keep)[j];
                assert(s[k] == s.filter(keep)[i] && s[l] == s.filter(keep)[j]);
            } else {
                let k = choose|k: int|
                    0 <= k < rest.len() && keep(rest[k]) && rest[k] == rest.filter(keep)[i];
                assert(s[k] == s.filter(keep)[i] && s[s.len() - 1] == s.filter(keep)[j]);
            }
        }
    }
}

/// Without an account, nothing but enabling has an effect.
pub proof fn no_account_no_effect(
    runtime: RuntimeView,
    event: ReducerEvent,
    settings: QuotaGuardSettings,
)
    requires
        runtime.account is None,
        !(event is Enable),
    ensures
        reduced(runtime, event, settings) == (runtime, Seq::<ReducerEffect>::empty()),
{
}

/// Enabling opens a new generation and leaves the account monitoring, whatever it was before.
pub proof fn enabling_monitors_in_a_new_generation(
    runtime: RuntimeView,
    account_key: String,
    now_ms: i64,
    settings: QuotaGuardSettings,
)
    requires
        runtime.lifecycle_generation < u64::MAX,
    ensures
        ({
            let (next, effects) = reduced(
                runtime,
                ReducerEvent::Enable { account_key, now_ms },
                settings,
            );
            &&& next.lifecycle_generation == runtime.lifecycle_generation + 1
            &&& next.account matches Some(account) && account.phase == QuotaGuardPhase::Monitoring
                && account.account_key == account_key
            &&& effects == seq![ReducerEffect::SetProcessOpen]
        }),
{
}

/// Disabling resumes what was suspended and opens the process, in this order.
pub proof fn disabling_reopens(
    runtime: RuntimeView,
    now_ms: i64,
    settings: QuotaGuardSettings,
)
    requires
        runtime.account is Some,
    ensures
        ({
            let (next, effects) = reduced(runtime, ReducerEvent::Disable { now_ms }, settings);
            &&& next.account->0.phase == QuotaGuardPhase::Disabled
            &&& effects == seq![ReducerEffect::ResumeExternalEngines, ReducerEffect::SetProcessOpen]
        }),
{
}

/// While disarmed, a snapshot that is not answered by a rearm leaves the phase as it is and
/// asks for nothing but higher thresholds.
pub proof fn disarmed_takes_no_action(
    account: AccountView,
    snapshot: RateLimitSnapshot,
    settings: QuotaGuardSettings,
    now_ms: i64,
)
    requires
        !settings.armed,
        settings.rearm_after_reset_percent_left is None || !reset_between(
            snapshot_view(account.snapshot),
            snapshot@,
        ),
    ensures
        ({
            let (next, effects) = after_snapshot(account, snapshot, settings, now_ms);
            &&& next == (AccountView { snapshot: Some(snapshot), updated_at: now_ms, ..account })
            &&& forall|i: int| 0 <= i < effects.len() ==> #[trigger] effects[i] is RaiseThresholds
        }),
{
}

/// With the response that only notifies, a snapshot never trips the account and never closes
/// the process.
pub proof fn notify_only_keeps_working(
    account: AccountView,
    snapshot: RateLimitSnapshot,
    settings: QuotaGuardSettings,
    now_ms: i64,
)
    requires
        settings.action == QuotaAction::NotifyOnly,
    ensures
        ({
            let (next, effects) = after_snapshot(account, snapshot, settings, now_ms);
            &&& next.phase == account.phase || next.phase == QuotaGuardPhase::Monitoring
            &&& !effects.contains(ReducerEffect::SetProcessClosed)
            &&& forall|i: int| 0 <= i < effects.len() ==> !(#[trigger] effects[i] is Interrupt)
        }),
{
    let (next, effects) = after_snapshot(account, snapshot, settings, now_ms);
    assert forall|i: int| 0 <= i < effects.len() implies effects[i] != ReducerEffect::SetProcessClosed && !(
    #[trigger] effects[i] is Interrupt) by {}
}

/// Admission closes first: an account enters the tripped or the intervention phase, and a turn
/// of an account that is not tripped yet is interrupted, only in a step whose first effect
/// closes the process.
#[verifier::spinoff_prover]
pub proof fn closing_comes_first(
    runtime: RuntimeView,
    event: ReducerEvent,
    settings: QuotaGuardSettings,
    i: int,
)
    requires
        runtime.account is Some,
        ({
            let (next, effects) = reduced(runtime, event, settings);
            let phase = next.account->0.phase;
            ||| phase != runtime.account->0.phase && (phase == QuotaGuardPhase::Tripped || phase
                == QuotaGuardPhase::InterventionRequired)
            ||| runtime.account->0.phase != QuotaGuardPhase::Tripped && 0 <= i < effects.len()
                && effects[i] is Interrupt
        }),
    ensures
        reduced(runtime, event, settings).1.len() > 0,
        reduced(runtime, event, settings).1[0] == ReducerEffect::SetProcessClosed,
{
    let account = runtime.account->0;
    match event {
        ReducerEvent::RehydratePendingInterrupts { .. } => {
            lemma_rehydrated_interrupts_nothing(account.pending_interrupt_index);
        },
        ReducerEvent::Snapshot { snapshot, now_ms, .. } => {
            lemma_snapshot_closes_first(account, snapshot, settings, now_ms, i);
        },
        ReducerEvent::ApplyActionNow { now_ms } => {
            let seen = AccountView { updated_at: now_ms, ..account };
            if let Some((window, floor)) = spec_fired(
                None,
                snapshot_view(account.snapshot),
                settings,
                true,
            ) {
                lemma_tripped_closes_first(seen, settings.action, window, floor, i);
            }
        },
        ReducerEvent::TurnStarted { .. } => {},
        ReducerEvent::TurnTerminal { .. } => {},
        ReducerEvent::InterruptReconciled { .. } => {},
        ReducerEvent::PendingStartExpired { .. } => {},
        _ => {},
    }
}

/// Whether the step leaves the phase or interrupts nothing, unless its first effect closes the
/// process.
spec fn closes_first(
    before: AccountView,
    step: (AccountView, Seq<ReducerEffect>),
    i: int,
) -> bool {
    let (after, effects) = step;
    let enters = after.phase != before.phase && (after.phase == QuotaGuardPhase::Tripped
        || after.phase == QuotaGuardPhase::InterventionRequired);
    let interrupts = 0 <= i < effects.len() && effects[i] is Interrupt;
    enters || interrupts ==> effects.len() > 0 && effects[0] == ReducerEffect::SetProcessClosed
}

proof fn lemma_tripped_closes_first(
    account: AccountView,
    action: QuotaAction,
    window: QuotaWindowKind,
    floor: u8,
    i: int,
)
    ensures
        closes_first(account, tripped(account, action, window, floor), i),
{
}

proof fn lemma_snapshot_closes_first(
    account: AccountView,
    snapshot: RateLimitSnapshot,
    settings: QuotaGuardSettings,
    now_ms: i64,
    i: int,
)
    ensures
        closes_first(account, after_snapshot(account, snapshot, settings, now_ms), i),
{
    let previous = snapshot_view(account.snapshot);
    let cleared = AccountView {
        snapshot: Some(snapshot),
        updated_at: now_ms,
        fire_at_or_above_on_next_snapshot: false,
        ..account
    };
    let force = previous is None || account.fire_at_or_above_on_next_snapshot;
    if let Some((window, floor)) = spec_fired(previous, Some(snapshot@), settings, force) {
        lemma_tripped_closes_first(cleared, settings.action, window, floor, i);
    }
}

proof fn lemma_rehydrated_interrupts_nothing(pending: Seq<PendingInterrupt>)
    ensures
        forall|i: int|
            0 <= i < rehydrated(pending).len() ==> !(#[trigger] rehydrated(pending)[i] is Interrupt),
    decreases pending.len(),
{
    if pending.len() > 0 {
        lemma_rehydrated_interrupts_nothing(pending.drop_last());
    }
}

/// A restart asks whether the interrupted turns are still active; it interrupts none anew and
/// changes nothing.
pub proof fn a_restart_interrupts_nothing(
    runtime: RuntimeView,
    settings: QuotaGuardSettings,
    now_ms: i64,
)
    ensures
        ({
            let (next, effects) = reduced(
                runtime,
                ReducerEvent::RehydratePendingInterrupts { now_ms },
                settings,
            );
            &&& next == runtime
            &&& forall|i: int| 0 <= i < effects.len() ==> !(#[trigger] effects[i] is Interrupt)
        }),
{
    if let Some(account) = runtime.account {
        lemma_rehydrated_interrupts_nothing(account.pending_interrupt_index);
    }
}

/// A trip that interrupts does so once for every owned turn, in the order in which they are
/// held, and for nothing else.
pub proof fn every_owned_turn_is_interrupted_once(
    account: AccountView,
    settings: QuotaGuardSettings,
    window: QuotaWindowKind,
    floor: u8,
)
    requires
        settings.action != QuotaAction::NotifyOnly,
    ensures
        ({
            let effects = tripped(account, settings.action, window, floor).1;
            let turns = account.local_turn_registry;
            &&& forall|i: int|
                0 <= i < effects.len() ==> (#[trigger] effects[i] is Interrupt <==> 2 <= i
                    < turns.len() + 2)
            &&& forall|i: int|
                0 <= i < turns.len() ==> effects[i + 2] == (ReducerEffect::Interrupt {
                    turn: #[trigger] turns[i],
                    generation: 0,
                    operation_id: 0,
                    attempt: 1,
                })
        }),
{
}

/// After the response that interrupts once, the process is open again at the end of the step;
/// after the one that blocks it stays closed.
pub proof fn interrupting_reopens_and_blocking_does_not(
    account: AccountView,
    window: QuotaWindowKind,
    floor: u8,
)
    ensures
        tripped(account, QuotaAction::Interrupt, window, floor).1.last()
            == ReducerEffect::SetProcessOpen,
        tripped(account, QuotaAction::Interrupt, window, floor).1.contains(
            ReducerEffect::PersistDisarmed,
        ),
        !tripped(account, QuotaAction::Block, window, floor).1.contains(
            ReducerEffect::SetProcessOpen,
        ),
        !tripped(account, QuotaAction::Block, window, floor).1.contains(
            ReducerEffect::PersistDisarmed,
        ),
{
    let effects = tripped(account, QuotaAction::Interrupt, window, floor).1;
    assert(effects[effects.len() - 2] == ReducerEffect::PersistDisarmed);
    let blocking = tripped(account, QuotaAction::Block, window, floor).1;
    assert forall|i: int| 0 <= i < blocking.len() implies #[trigger] blocking[i]
        != ReducerEffect::SetProcessOpen && blocking[i] != ReducerEffect::PersistDisarmed by {
        if i >= 2 {
            assert(blocking[i] == interrupts(account.local_turn_registry)[i - 2]);
        }
    }
}

/// A tripped account that blocks stays tripped through every armed snapshot that is not
/// answered by a rearm, and its processes are kept suspended.
pub proof fn blocked_stays_blocked(
    account: AccountView,
    snapshot: RateLimitSnapshot,
    settings: QuotaGuardSettings,
    now_ms: i64,
)
    requires
        account.phase == QuotaGuardPhase::Tripped,
        settings.armed,
        settings.action == QuotaAction::Block,
        settings.rearm_after_reset_percent_left is None || !reset_between(
            snapshot_view(account.snapshot),
            snapshot@,
        ),
    ensures
        after_snapshot(account, snapshot, settings, now_ms).0.phase == QuotaGuardPhase::Tripped,
        after_snapshot(account, snapshot, settings, now_ms).1
            == seq![ReducerEffect::MaintainExternalEngineSuspension { prevent_new_sessions: true }],
{
}

/// No reading of the limits, however healthy, ends a trip or opens the process, unless a reset is
/// seen and the settings ask for a rearm.
pub proof fn a_trip_outlasts_every_reading(
    account: AccountView,
    snapshot: RateLimitSnapshot,
    settings: QuotaGuardSettings,
    now_ms: i64,
)
    requires
        account.phase == QuotaGuardPhase::Tripped,
        settings.rearm_after_reset_percent_left is None || !reset_between(
            snapshot_view(account.snapshot),
            snapshot@,
        ),
    ensures
        after_snapshot(account, snapshot, settings, now_ms).0.phase == QuotaGuardPhase::Tripped,
        !after_snapshot(account, snapshot, settings, now_ms).1.contains(
            ReducerEffect::SetProcessOpen,
        ),
{
}

/// A threshold fires on the way up only: two snapshots in a row with the same windows give at
/// most one response, the first.
pub proof fn a_crossing_fires_once(
    account: AccountView,
    first: RateLimitSnapshot,
    second: RateLimitSnapshot,
    settings: QuotaGuardSettings,
    now_ms: i64,
    later_ms: i64,
)
    requires
        account.phase == QuotaGuardPhase::Monitoring,
        settings.armed,
        settings.action == QuotaAction::NotifyOnly,
        settings.rearm_after_reset_percent_left is None,
        first.primary == second.primary,
        first.secondary == second.secondary,
    ensures
        ({
            let after_first = after_snapshot(account, first, settings, now_ms).0;
            after_snapshot(after_first, second, settings, later_ms).1.len() == 0
        }),
{
    let after_first = after_snapshot(account, first, settings, now_ms).0;
    let previous = snapshot_view(after_first.snapshot);
    assert(after_first.snapshot == Some(first));
    assert(use_of(previous, QuotaWindowKind::Primary) == use_of(
        Some(second@),
        QuotaWindowKind::Primary,
    ));
    assert(use_of(previous, QuotaWindowKind::Secondary) == use_of(
        Some(second@),
        QuotaWindowKind::Secondary,
    ));
}

/// A rearm never sets a threshold below the present use, nor one that leaves more than the
/// asked share unless the use demands it.
pub proof fn rearm_threshold_is_the_higher_one(percent_left: u8, used: u8)
    requires
        percent_left <= 100,
    ensures
        rearm_threshold(percent_left, used) >= used,
        rearm_threshold(percent_left, used) >= 100 - percent_left,
        rearm_threshold(percent_left, used) == used || rearm_threshold(percent_left, used) == 100
            - percent_left,
{
}

/// A turn that starts while the limiter is disabled is not owned.
pub proof fn disabled_owns_nothing_new(
    account: AccountView,
    generation: u64,
    turn: TurnKey,
    now_ms: i64,
)
    requires
        account.phase == QuotaGuardPhase::Disabled,
    ensures
        after_turn_started(account, generation, turn, now_ms).0.local_turn_registry
            == account.local_turn_registry,
{
}

/// Seeing the start of an owned turn again changes nothing but the time.
pub proof fn starting_twice_owns_once(
    account: AccountView,
    generation: u64,
    turn: TurnKey,
    now_ms: i64,
)
    requires
        account.owns(turn),
    ensures
        after_turn_started(account, generation, turn, now_ms).0 == (AccountView {
            updated_at: now_ms,
            ..account
        }),
{
}

/// A turn that has ended is neither owned nor to be interrupted, and every other turn is owned
/// and to be interrupted as before.
pub proof fn ending_disowns_exactly_that_turn(
    account: AccountView,
    generation: u64,
    turn: TurnKey,
    other: TurnKey,
    status: String,
    error: Option<crate::json::Json>,
    settings: QuotaGuardSettings,
    now_ms: i64,
)
    ensures
        ({
            let next = after_turn_terminal(
                account,
                generation,
                turn,
                status,
                error,
                settings,
                now_ms,
            ).0;
            &&& !next.owns(turn)
            &&& !is_pending(next.pending_interrupt_index, turn)
            &&& other.id() != turn.id() ==> (next.owns(other) <==> account.owns(other))
            &&& other.id() != turn.id() ==> (is_pending(next.pending_interrupt_index, other)
                <==> is_pending(account.pending_interrupt_index, other))
        }),
{
    lemma_disowned(account, turn, other);
    let next = after_turn_terminal(account, generation, turn, status, error, settings, now_ms).0;
    assert(next.local_turn_registry == disowned(account, turn).local_turn_registry);
    assert(next.pending_interrupt_index == disowned(account, turn).pending_interrupt_index);
}

/// A turn that ends because the usage limit is exceeded opens an episode of the account's hard
/// limit, and keeps those that were open.
pub proof fn hitting_the_limit_opens_a_hard_episode(
    account: AccountView,
    generation: u64,
    turn: TurnKey,
    status: String,
    error: Option<Json>,
    settings: QuotaGuardSettings,
    now_ms: i64,
)
    requires
        hits_limit(account, turn, error, settings),
    ensures
        ({
            let next = after_turn_terminal(
                account,
                generation,
                turn,
                status,
                error,
                settings,
                now_ms,
            ).0;
            &&& episode_views(next.fired_episodes).contains(
                EpisodeView::HardLimit { account_key: account.account_key@ },
            )
            &&& account.fired_episodes.is_prefix_of(next.fired_episodes)
        }),
{
    let episode = EpisodeKey::HardLimit { account_key: account.account_key };
    let after = with_episode(account.fired_episodes, episode);
    if !episode_views(account.fired_episodes).contains(episode@) {
        assert(episode_views(after)[account.fired_episodes.len() as int] == episode@);
    }
}

proof fn lemma_disowned(account: AccountView, turn: TurnKey, other: TurnKey)
    ensures
        ({
            let next = disowned(account, turn);
            &&& !next.owns(turn)
            &&& !is_pending(next.pending_interrupt_index, turn)
            &&& other.id() != turn.id() ==> (next.owns(other) <==> account.owns(other))
            &&& other.id() != turn.id() ==> (is_pending(next.pending_interrupt_index, other)
                <==> is_pending(account.pending_interrupt_index, other))
        }),
{
    let next = disowned(account, turn);
    let keep = |known: TurnKey| known.id() != turn.id();
    let before = account.local_turn_registry;
    let after = before.filter(keep);
    lemma_filter_is_subsequence(before, keep);
    let keep_request = |p: PendingInterrupt| p.turn.id() != turn.id();
    let requests = account.pending_interrupt_index;
    let left = requests.filter(keep_request);
    lemma_filter_is_subsequence(requests, keep_request);
    if next.owns(turn) {
        let i = choose|i: int| 0 <= i < after.len() && (#[trigger] after[i]).id() == turn.id();
        assert(after[i] == after[i]);
    }
    if is_pending(left, turn) {
        let i = choose|i: int| 0 <= i < left.len() && (#[trigger] left[i]).turn.id() == turn.id();
        assert(left[i] == left[i]);
    }
    if other.id() != turn.id() {
        if next.owns(other) {
            let i = choose|i: int| 0 <= i < after.len() && (#[trigger] after[i]).id() == other.id();
            let k = choose|k: int| 0 <= k < before.len() && keep(before[k]) && before[k] == after[i];
            assert(before[k].id() == other.id());
        }
        if account.owns(other) {
            let k = choose|k: int| 0 <= k < before.len() && (#[trigger] before[k]).id() == other.id();
            before.lemma_filter_contains(keep, k);
            let i = choose|i: int| 0 <= i < after.len() && after[i] == before[k];
            assert(after[i].id() == other.id());
        }
        if is_pending(left, other) {
            let i = choose|i: int|
                0 <= i < left.len() && (#[trigger] left[i]).turn.id() == other.id();
            let k = choose|k: int|
                0 <= k < requests.len() && keep_request(requests[k]) && requests[k] == left[i];
            assert(requests[k].turn.id() == other.id());
        }
        if is_pending(requests, other) {
            let k = choose|k: int|
                0 <= k < requests.len() && (#[trigger] requests[k]).turn.id() == other.id();
            requests.lemma_filter_contains(keep_request, k);
            let i = choose|i: int| 0 <= i < left.len() && left[i] == requests[k];
            assert(left[i].turn.id() == other.id());
        }
    }
}

/// A start of an earlier generation is not recorded.
pub proof fn stale_start_is_not_recorded(
    account: AccountView,
    generation: u64,
    start: PendingLocalStart,
    now_ms: i64,
)
    requires
        start.generation != generation,
    ensures
        after_start_recorded(account, generation, start, now_ms) == (
            account,
            Seq::<ReducerEffect>::empty(),
        ),
{
}

proof fn lemma_owning_keeps(account: AccountView, turn: TurnKey)
    requires
        account.well_formed(),
    ensures
        owning(account, turn).well_formed(),
{
    if !account.owns(turn) {
        let before = account.local_turn_registry;
        let after = before.push(turn);
        assert forall|i: int, j: int| 0 <= i < j < after.len() implies (#[trigger] after[i]).id()
            != (#[trigger] after[j]).id() by {
            if j == before.len() {
                assert(before[i].id() != turn.id());
            } else {
                assert(before[i].id() != before[j].id());
            }
        }
    }
}

proof fn lemma_starts_removed(starts: Seq<PendingLocalStart>, at: int)
    requires
        0 <= at < starts.len(),
        ordered_starts(starts),
    ensures
        ordered_starts(starts.remove(at)),
{
    let after = starts.remove(at);
    assert forall|i: int, j: int| 0 <= i < j < after.len() implies (#[trigger] after[i]).request_id
        < (#[trigger] after[j]).request_id by {
        let i2 = if i < at { i } else { i + 1 };
        let j2 = if j < at { j } else { j + 1 };
        assert(starts[i2].request_id < starts[j2].request_id);
    }
}

proof fn lemma_started_keeps(account: AccountView, generation: u64, turn: TurnKey, now_ms: i64)
    requires
        account.well_formed(),
    ensures
        after_turn_started(account, generation, turn, now_ms).0.well_formed(),
{
    let seen = AccountView { updated_at: now_ms, ..account };
    assert(seen.well_formed());
    lemma_owning_keeps(seen, turn);
    let wanted = |start: PendingLocalStart| claims(start, generation, turn);
    lemma_first_where_found(account.pending_local_starts, wanted);
    match first_where(account.pending_local_starts, wanted) {
        Some(i) => {
            lemma_starts_removed(account.pending_local_starts, i);
            let matched = AccountView {
                pending_local_starts: account.pending_local_starts.remove(i),
                ..seen
            };
            assert(matched.well_formed());
            lemma_owning_keeps(matched, turn);
        },
        None => {},
    }
}

proof fn lemma_disowned_keeps(account: AccountView, turn: TurnKey)
    requires
        account.well_formed(),
    ensures
        disowned(account, turn).well_formed(),
{
    let keep = |known: TurnKey| known.id() != turn.id();
    let before = account.local_turn_registry;
    let after = before.filter(keep);
    lemma_filter_is_subsequence(before, keep);
    assert forall|i: int, j: int| 0 <= i < j < after.len() implies (#[trigger] after[i]).id() != (
    #[trigger] after[j]).id() by {
        let (k, l) = choose|k: int, l: int|
            0 <= k < l < before.len() && before[k] == after[i] && before[l] == after[j];
        assert(before[k].id() != before[l].id());
    }
    let keep_request = |p: PendingInterrupt| p.turn.id() != turn.id();
    let requests = account.pending_interrupt_index;
    let left = requests.filter(keep_request);
    lemma_filter_is_subsequence(requests, keep_request);
    assert forall|i: int, j: int| 0 <= i < j < left.len() implies (#[trigger] left[i]).turn.id()
        != (#[trigger] left[j]).turn.id() by {
        let (k, l) = choose|k: int, l: int|
            0 <= k < l < requests.len() && requests[k] == left[i] && requests[l] == left[j];
        assert(requests[k].turn.id() != requests[l].turn.id());
    }
    assert forall|i: int, j: int| 0 <= i < j < left.len() implies precedes(
        (#[trigger] left[i]).turn.id(),
        (#[trigger] left[j]).turn.id(),
    ) by {
        let (k, l) = choose|k: int, l: int|
            0 <= k < l < requests.len() && requests[k] == left[i] && requests[l] == left[j];
        assert(precedes(requests[k].turn.id(), requests[l].turn.id()));
    }
}

proof fn lemma_request_replaced(
    requests: Seq<PendingInterrupt>,
    turn: TurnKey,
    generation: u64,
    operation_id: u64,
    attempt: u8,
    request: PendingInterrupt,
)
    requires
        unique_interrupts(requests),
        ordered_interrupts(requests),
        request_at(requests, turn, generation, operation_id, attempt) is Some,
        request.turn == requests[request_at(
            requests,
            turn,
            generation,
            operation_id,
            attempt,
        )->0].turn,
    ensures
        unique_interrupts(
            requests.update(
                request_at(requests, turn, generation, operation_id, attempt)->0,
                request,
            ),
        ),
        ordered_interrupts(
            requests.update(
                request_at(requests, turn, generation, operation_id, attempt)->0,
                request,
            ),
        ),
{
    lemma_first_where_found(
        requests,
        |p: PendingInterrupt| is_request(p, turn, generation, operation_id, attempt),
    );
    let at = request_at(requests, turn, generation, operation_id, attempt)->0;
    let after = requests.update(at, request);
    assert forall|i: int, j: int| 0 <= i < j < after.len() implies (#[trigger] after[i]).turn.id()
        != (#[trigger] after[j]).turn.id() by {
        assert(requests[i].turn.id() != requests[j].turn.id());
    }
    assert forall|i: int, j: int| 0 <= i < j < after.len() implies precedes(
        (#[trigger] after[i]).turn.id(),
        (#[trigger] after[j]).turn.id(),
    ) by {
        assert(precedes(requests[i].turn.id(), requests[j].turn.id()));
    }
}

proof fn lemma_recorded_keeps(
    account: AccountView,
    generation: u64,
    start: PendingLocalStart,
    now_ms: i64,
)
    requires
        account.well_formed(),
    ensures
        after_start_recorded(account, generation, start, now_ms).0.well_formed(),
{
    let keep = |known: PendingLocalStart| known.request_id != start.request_id;
    let before = account.pending_local_starts;
    let rest = before.filter(keep);
    lemma_filter_is_subsequence(before, keep);
    assert(without_request(before, start.request_id) == rest);
    assert(ordered_starts(rest)) by {
        assert forall|i: int, j: int| 0 <= i < j < rest.len() implies (#[trigger] rest[i]).request_id
            < (#[trigger] rest[j]).request_id by {
            let (k, l) = choose|k: int, l: int|
                0 <= k < l < before.len() && before[k] == rest[i] && before[l] == rest[j];
            assert(before[k].request_id < before[l].request_id);
        }
    }
    assert forall|i: int| 0 <= i < rest.len() implies (#[trigger] rest[i]).request_id
        != start.request_id by {
        let k = choose|k: int| 0 <= k < before.len() && keep(before[k]) && before[k] == rest[i];
        assert(keep(before[k]));
    }
    starts_stay_ordered(rest, start);
}

proof fn lemma_failed_keeps(account: AccountView, request_id: u64, generation: u64, now_ms: i64)
    requires
        account.well_formed(),
    ensures
        after_start_failed(account, request_id, generation, now_ms).well_formed(),
{
    let wanted = |start: PendingLocalStart| requested(start, request_id, generation);
    lemma_first_where_found(account.pending_local_starts, wanted);
    match first_where(account.pending_local_starts, wanted) {
        Some(i) => {
            lemma_starts_removed(account.pending_local_starts, i);
        },
        None => {},
    }
}

proof fn lemma_response_keeps(
    account: AccountView,
    generation: u64,
    request_id: u64,
    session_epoch: Seq<char>,
    workspace_id: Seq<char>,
    thread_id: Option<String>,
    now_ms: i64,
)
    requires
        account.well_formed(),
    ensures
        after_start_response(
            account,
            generation,
            request_id,
            session_epoch,
            workspace_id,
            thread_id,
            now_ms,
        ).well_formed(),
{
    let starts = account.pending_local_starts;
    let wanted = |start: PendingLocalStart|
        answered(start, generation, request_id, session_epoch, workspace_id);
    lemma_first_where_found(starts, wanted);
    match first_where(starts, wanted) {
        None => {},
        Some(i) => {
            let noted = AccountView {
                pending_local_starts: starts.update(
                    i,
                    PendingLocalStart {
                        response_thread_id: if thread_id is Some {
                            thread_id
                        } else {
                            starts[i].response_thread_id
                        },
                        response_received_at: Some(now_ms),
                        ..starts[i]
                    },
                ),
                updated_at: now_ms,
                ..account
            };
            assert forall|k: int, l: int| 0 <= k < l < starts.len() implies (
            #[trigger] noted.pending_local_starts[k]).request_id < (
            #[trigger] noted.pending_local_starts[l]).request_id by {
                assert(starts[k].request_id < starts[l].request_id);
            }
            assert(noted.well_formed());
            if let Some(thread) = thread_id {
                let in_it = |u: UnmatchedStartedTurn|
                    in_thread(u, generation, session_epoch, workspace_id, thread@);
                lemma_first_where_found(account.unmatched_started_turns, in_it);
                if let Some(j) = first_where(account.unmatched_started_turns, in_it) {
                    lemma_starts_removed(noted.pending_local_starts, i);
                    let matched = AccountView {
                        pending_local_starts: noted.pending_local_starts.remove(i),
                        ..noted
                    };
                    assert(matched.well_formed());
                    lemma_promoted_keeps(matched, j);
                }
            }
        },
    }
}

proof fn lemma_promoted_keeps(account: AccountView, at: int)
    requires
        account.well_formed(),
        0 <= at < account.unmatched_started_turns.len(),
    ensures
        promoted(account, at).well_formed(),
{
    let turn = account.unmatched_started_turns[at].turn;
    let matched = AccountView {
        unmatched_started_turns: account.unmatched_started_turns.remove(at),
        ..account
    };
    assert(matched.well_formed());
    lemma_owning_keeps(matched, turn);
    let wanted = |t: crate::model::TerminalObservation| t.turn.id() == turn.id();
    lemma_first_where_found(account.terminal_observations, wanted);
}

/// Every step keeps the account well formed.
pub proof fn every_step_keeps_the_account_well_formed(
    runtime: RuntimeView,
    event: ReducerEvent,
    settings: QuotaGuardSettings,
)
    requires
        runtime.well_formed(),
    ensures
        reduced(runtime, event, settings).0.well_formed(),
{
    if let Some(account) = runtime.account {
        match event {
            ReducerEvent::TurnStarted { turn, now_ms } => {
                lemma_started_keeps(account, runtime.lifecycle_generation, turn, now_ms);
            },
            ReducerEvent::TurnTerminal { turn, status, error, now_ms } => {
                lemma_disowned_keeps(account, turn);
            },
            ReducerEvent::FinalizeClosedEpisode { transition_id, now_ms } => {
                requests_are_added_once(
                    account.local_turn_registry,
                    account.pending_interrupt_index,
                    runtime.next_operation_id,
                    runtime.lifecycle_generation,
                    now_ms,
                );
            },
            ReducerEvent::InterruptAcknowledged {
                turn,
                generation,
                operation_id,
                attempt,
                now_ms,
            } => {
                let requests = account.pending_interrupt_index;
                if let Some(i) = request_at(requests, turn, generation, operation_id, attempt) {
                    lemma_request_replaced(
                        requests,
                        turn,
                        generation,
                        operation_id,
                        attempt,
                        PendingInterrupt {
                            acknowledged: true,
                            completion_deadline: Some(confirmation_deadline(now_ms)),
                            ..requests[i]
                        },
                    );
                }
            },
            ReducerEvent::InterruptReconciled {
                active_turn_id,
                turn,
                generation,
                operation_id,
                attempt,
                now_ms,
            } => {
                let requests = account.pending_interrupt_index;
                lemma_disowned_keeps(AccountView { updated_at: now_ms, ..account }, turn);
                if let Some(i) = request_at(requests, turn, generation, operation_id, attempt) {
                    lemma_request_replaced(
                        requests,
                        turn,
                        generation,
                        operation_id,
                        attempt,
                        next_request(requests[i], now_ms),
                    );
                }
            },
            ReducerEvent::PendingStartRecorded { start, now_ms } => {
                lemma_recorded_keeps(account, runtime.lifecycle_generation, start, now_ms);
            },
            ReducerEvent::PendingStartFailed { request_id, generation, now_ms } => {
                lemma_failed_keeps(account, request_id, generation, now_ms);
            },
            ReducerEvent::PendingStartExpired { request_id, generation, now_ms } => {
                lemma_failed_keeps(account, request_id, generation, now_ms);
            },
            ReducerEvent::ProvisionalExpired { turn, generation, terminal, now_ms } => {
                lemma_filter_is_subsequence(
                    account.terminal_observations,
                    |t: crate::model::TerminalObservation|
                        t.turn.id() != turn.id() || t.generation != generation,
                );
                lemma_filter_is_subsequence(
                    account.unmatched_started_turns,
                    |u: UnmatchedStartedTurn|
                        u.turn.id() != turn.id() || u.generation != generation,
                );
            },
            ReducerEvent::StartResponse {
                request_id,
                session_epoch,
                workspace_id,
                thread_id,
                now_ms,
            } => {
                lemma_response_keeps(
                    account,
                    runtime.lifecycle_generation,
                    request_id,
                    session_epoch@,
                    workspace_id@,
                    thread_id,
                    now_ms,
                );
            },
            _ => {},
        }
    }
}

/// While a start of the same session and workspace is pending whose thread is not known, a
/// turn that no start claims is not owned on its start alone.
pub proof fn an_open_start_is_not_guessed(
    account: AccountView,
    generation: u64,
    turn: TurnKey,
    now_ms: i64,
    open: int,
)
    requires
        0 <= open < account.pending_local_starts.len(),
        may_claim(account.pending_local_starts[open], generation, turn),
        forall|i: int|
            0 <= i < account.pending_local_starts.len() ==> !claims(
                #[trigger] account.pending_local_starts[i],
                generation,
                turn,
            ),
    ensures
        after_turn_started(account, generation, turn, now_ms).0.local_turn_registry
            == account.local_turn_registry,
{
    let starts = account.pending_local_starts;
    lemma_first_where_found(starts, |s: PendingLocalStart| claims(s, generation, turn));
    lemma_first_where_found(starts, |s: PendingLocalStart| may_claim(s, generation, turn));
}

} // verus!
