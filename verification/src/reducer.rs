//! The limiter's state machine: an event, the settings and the state give the next state and
//! the effects to run.

use crate::evaluator::has_episode;
use crate::interrupts::{
    acknowledge, after_acknowledged, after_finalized, after_reconciled, at_deadline,
    deadline_effects, disown, disowned, finalize_closed_episode, reconcile, rehydrate, rehydrated,
};
use crate::json::{Json, JsonView};
use crate::model::{
    place_start, snapshot_view, text_view, with_episode, with_start, AccountRuntime, AccountView,
    ActivityView,
    EpisodeKey, PendingLocalStart, QuotaGuardActivityEntry, QuotaGuardActivityKind, QuotaGuardPhase,
    QuotaGuardRuntimeState, QuotaWindowKind, RateLimitSnapshot, RuntimeView, SnapshotView,
    TerminalObservation, TurnKey, UnmatchedStartedTurn, PROVISIONAL_LIMIT, TERMINAL_FULL,
    UNMATCHED_FULL,
};
use crate::parser::{error_info, is_usage_limit_exceeded};
use crate::search::{first_where, lemma_first_where_found, position_where, retain_where};
use crate::settings::{QuotaAction, QuotaGuardSettings};
use crate::text::{decimal, decimal_text, same_text};
use vstd::prelude::*;
use vstd::string::*;

verus! {

/// Something that is to be done outside the state machine.
#[derive(Debug, PartialEq, Eq)]
pub enum ReducerEffect {
    SetProcessClosed,
    SetProcessOpen,
    SuspendExternalEngines,
    MaintainExternalEngineSuspension { prevent_new_sessions: bool },
    ResumeExternalEngines,
    Notify { episode: EpisodeKey },
    PersistDisarmed,
    RaiseThresholds { used_percent: u8 },
    PersistAutoRearm { threshold_percent: u8 },
    Interrupt { turn: TurnKey, generation: u64, operation_id: u64, attempt: u8 },
    ReconcileThread { turn: TurnKey, generation: u64, operation_id: u64, attempt: u8 },
    FinalizeClosedEpisode { transition_id: u64 },
    ScheduleInterruptAck {
        turn: TurnKey,
        generation: u64,
        operation_id: u64,
        attempt: u8,
        deadline: i64,
    },
    ScheduleInterruptCompletion {
        turn: TurnKey,
        generation: u64,
        operation_id: u64,
        attempt: u8,
        deadline: i64,
    },
    ScheduleStartExpiry { request_id: u64, generation: u64, deadline: i64 },
    ScheduleProvisionalExpiry { turn: TurnKey, generation: u64, terminal: bool, deadline: i64 },
    ReadFullRateLimits,
    VerifyNow,
}

/// Something that has happened.
#[derive(Debug)]
pub enum ReducerEvent {
    Enable { account_key: String, now_ms: i64 },
    Disable { now_ms: i64 },
    SettingsChanged { thresholds_changed: bool },
    Snapshot { snapshot: RateLimitSnapshot, full_read: bool, verification: bool, now_ms: i64 },
    TurnStarted { turn: TurnKey, now_ms: i64 },
    TurnTerminal { turn: TurnKey, status: String, error: Option<Json>, now_ms: i64 },
    Resume { now_ms: i64 },
    ApplyActionNow { now_ms: i64 },
    Rearm { now_ms: i64 },
    FinalizeClosedEpisode { transition_id: u64, now_ms: i64 },
    InterruptAcknowledged {
        turn: TurnKey,
        generation: u64,
        operation_id: u64,
        attempt: u8,
        now_ms: i64,
    },
    InterruptRequestFailed {
        turn: TurnKey,
        generation: u64,
        operation_id: u64,
        attempt: u8,
        now_ms: i64,
    },
    InterruptDeadline {
        turn: TurnKey,
        generation: u64,
        operation_id: u64,
        attempt: u8,
        acknowledgement: bool,
        now_ms: i64,
    },
    InterruptReconciled {
        active_turn_id: Option<String>,
        turn: TurnKey,
        generation: u64,
        operation_id: u64,
        attempt: u8,
        now_ms: i64,
    },
    InterruptReconcileFailed {
        turn: TurnKey,
        generation: u64,
        operation_id: u64,
        attempt: u8,
        reason: String,
        now_ms: i64,
    },
    PendingStartExpired { request_id: u64, generation: u64, now_ms: i64 },
    ProvisionalExpired { turn: TurnKey, generation: u64, terminal: bool, now_ms: i64 },
    RehydratePendingInterrupts { now_ms: i64 },
    PendingStartRecorded { start: PendingLocalStart, now_ms: i64 },
    PendingStartFailed { request_id: u64, generation: u64, now_ms: i64 },
    StartResponse {
        request_id: u64,
        session_epoch: String,
        workspace_id: String,
        thread_id: Option<String>,
        now_ms: i64,
    },
}

/// How long a start, a started turn or the end of one may stay unconfirmed, in milliseconds.
pub const CONFIRMATION_MS: i64 = 10_000;

/// Why intervention is required after a start that was never confirmed.
pub const START_EXPIRED: &'static str = "Local start confirmation expired while the limiter was enforcing";

/// The moment at which something seen at `now_ms` is given up.
pub open spec fn confirmation_deadline(now_ms: i64) -> i64 {
    if now_ms + CONFIRMATION_MS > i64::MAX {
        i64::MAX
    } else {
        (now_ms + CONFIRMATION_MS) as i64
    }
}

/// The threshold of a window; a hard limit is reached at full use.
pub open spec fn spec_threshold(settings: QuotaGuardSettings, kind: QuotaWindowKind) -> u8 {
    match kind {
        QuotaWindowKind::Primary => settings.primary_threshold_percent,
        QuotaWindowKind::Secondary => settings.secondary_threshold_percent,
        QuotaWindowKind::HardLimit => 100,
    }
}

/// The use of a window, where the snapshot has it.
pub open spec fn use_of(snapshot: Option<SnapshotView>, kind: QuotaWindowKind) -> Option<u8> {
    match snapshot {
        Some(s) => match s.window(kind) {
            Some(window) => Some(window.used_percent),
            None => None,
        },
        None => None,
    }
}

/// Whether the window has come from below its threshold to it, or is at it and `force` holds.
pub open spec fn crosses(
    previous: Option<SnapshotView>,
    current: Option<SnapshotView>,
    settings: QuotaGuardSettings,
    force: bool,
    kind: QuotaWindowKind,
) -> bool {
    let floor = spec_threshold(settings, kind);
    &&& use_of(current, kind) matches Some(used) && used >= floor
    &&& force || (use_of(previous, kind) matches Some(used) ==> used < floor)
}

/// The window to respond to, the primary one before the secondary, with its threshold.
pub open spec fn spec_fired(
    previous: Option<SnapshotView>,
    current: Option<SnapshotView>,
    settings: QuotaGuardSettings,
    force: bool,
) -> Option<(QuotaWindowKind, u8)> {
    if crosses(previous, current, settings, force, QuotaWindowKind::Primary) {
        Some((QuotaWindowKind::Primary, settings.primary_threshold_percent))
    } else if crosses(previous, current, settings, force, QuotaWindowKind::Secondary) {
        Some((QuotaWindowKind::Secondary, settings.secondary_threshold_percent))
    } else {
        None
    }
}

/// Whether the primary window was reset between the two snapshots: its reset time has moved
/// on, or, where a reset time is missing, its use has fallen by twenty points.
pub open spec fn reset_between(previous: Option<SnapshotView>, current: SnapshotView) -> bool {
    match (previous, current.primary) {
        (Some(before), Some(now)) => match before.primary {
            Some(window) => match (window.reset_at, now.reset_at) {
                (Some(old_reset), Some(new_reset)) => new_reset > old_reset,
                _ => window.used_percent - now.used_percent >= 20,
            },
            None => false,
        },
        _ => false,
    }
}

/// The higher use of the two windows, zero where neither is known.
pub open spec fn highest_use(snapshot: SnapshotView) -> u8 {
    match (
        use_of(Some(snapshot), QuotaWindowKind::Primary),
        use_of(Some(snapshot), QuotaWindowKind::Secondary),
    ) {
        (Some(a), Some(b)) => if a >= b { a } else { b },
        (Some(a), None) => a,
        (None, Some(b)) => b,
        (None, None) => 0,
    }
}

/// One interrupt for each owned turn.
pub open spec fn interrupts(turns: Seq<TurnKey>) -> Seq<ReducerEffect> {
    turns.map_values(
        |turn: TurnKey|
            ReducerEffect::Interrupt { turn, generation: 0, operation_id: 0, attempt: 1 },
    )
}

/// The response to a window that has reached its threshold.
pub open spec fn tripped(
    account: AccountView,
    action: QuotaAction,
    window: QuotaWindowKind,
    floor: u8,
) -> (AccountView, Seq<ReducerEffect>) {
    let closed = AccountView { phase: QuotaGuardPhase::Tripped, ..account };
    let closing = seq![ReducerEffect::SetProcessClosed, ReducerEffect::SuspendExternalEngines]
        + interrupts(account.local_turn_registry);
    match action {
        QuotaAction::NotifyOnly => (
            account,
            seq![
                ReducerEffect::Notify {
                    episode: EpisodeKey::Threshold {
                        account_key: account.account_key,
                        window,
                        threshold_percent: floor,
                        resets_at: None,
                    },
                },
            ],
        ),
        QuotaAction::Interrupt => (
            closed,
            closing + seq![ReducerEffect::PersistDisarmed, ReducerEffect::SetProcessOpen],
        ),
        QuotaAction::Block => (closed, closing),
    }
}

/// The message of the activity entry for a rearm.
pub open spec fn rearm_message(percent_left: u8) -> Seq<char> {
    "Automatically rearmed after usage reset at "@ + decimal(percent_left as nat) + "% left."@
}

/// The threshold that a rearm sets: what leaves the asked share of the quota, or the present
/// use where that is higher.
pub open spec fn rearm_threshold(percent_left: u8, used: u8) -> u8 {
    if 100 - percent_left >= used {
        (100 - percent_left) as u8
    } else {
        used
    }
}

/// The account after a reset that rearms it.
pub open spec fn rearmed(
    account: AccountView,
    percent_left: u8,
    used: u8,
    now_ms: i64,
) -> (AccountView, Seq<ReducerEffect>) {
    let threshold_percent = rearm_threshold(percent_left, used);
    (
        AccountView {
            phase: QuotaGuardPhase::Monitoring,
            fire_at_or_above_on_next_snapshot: threshold_percent == used,
            ..account
        }.with_activity(
            ActivityView::message_entry(
                QuotaGuardActivityKind::StateChanged,
                now_ms,
                rearm_message(percent_left),
            ),
        ),
        seq![
            ReducerEffect::ResumeExternalEngines,
            ReducerEffect::SetProcessOpen,
            ReducerEffect::PersistAutoRearm { threshold_percent },
        ],
    )
}

/// The account after a snapshot.
pub open spec fn after_snapshot(
    account: AccountView,
    snapshot: RateLimitSnapshot,
    settings: QuotaGuardSettings,
    now_ms: i64,
) -> (AccountView, Seq<ReducerEffect>) {
    let previous = snapshot_view(account.snapshot);
    let seen = AccountView { snapshot: Some(snapshot), updated_at: now_ms, ..account };
    let floor = if settings.primary_threshold_percent <= settings.secondary_threshold_percent {
        settings.primary_threshold_percent
    } else {
        settings.secondary_threshold_percent
    };
    if reset_between(previous, snapshot@) && settings.rearm_after_reset_percent_left is Some {
        rearmed(
            seen,
            settings.rearm_after_reset_percent_left->0,
            snapshot.primary->0.used_percent,
            now_ms,
        )
    } else if !settings.armed {
        (
            seen,
            if highest_use(snapshot@) > floor {
                seq![ReducerEffect::RaiseThresholds { used_percent: highest_use(snapshot@) }]
            } else {
                seq![]
            },
        )
    } else if seen.phase == QuotaGuardPhase::Tripped && settings.action == QuotaAction::Block {
        (
            seen,
            seq![ReducerEffect::MaintainExternalEngineSuspension { prevent_new_sessions: true }],
        )
    } else if seen.phase == QuotaGuardPhase::Monitoring {
        let force = previous is None || account.fire_at_or_above_on_next_snapshot;
        let cleared = AccountView { fire_at_or_above_on_next_snapshot: false, ..seen };
        match spec_fired(previous, Some(snapshot@), settings, force) {
            Some((window, threshold)) => tripped(cleared, settings.action, window, threshold),
            None => (cleared, seq![]),
        }
    } else {
        (seen, seq![])
    }
}

/// The thread that a pending start belongs to, as far as it is known.
pub open spec fn known_thread(start: PendingLocalStart) -> Option<Seq<char>> {
    if start.response_thread_id is Some {
        text_view(start.response_thread_id)
    } else {
        text_view(start.expected_thread_id)
    }
}

/// Whether the start was asked for in the turn's session and workspace, in this generation.
pub open spec fn awaits(start: PendingLocalStart, generation: u64, turn: TurnKey) -> bool {
    &&& start.generation == generation
    &&& start.session_epoch@ == turn.session_epoch@
    &&& start.workspace_id@ == turn.workspace_id@
}

/// Whether the turn is the one that was asked for: its thread is the start's.
pub open spec fn claims(start: PendingLocalStart, generation: u64, turn: TurnKey) -> bool {
    awaits(start, generation, turn) && known_thread(start) == Some(turn.thread_id@)
}

/// Whether it is open if the turn is the one that was asked for: the start's thread is not
/// known yet.
pub open spec fn may_claim(start: PendingLocalStart, generation: u64, turn: TurnKey) -> bool {
    awaits(start, generation, turn) && known_thread(start) is None
}

/// The position of the unmatched turn with this identity.
pub open spec fn unmatched_at(turns: Seq<UnmatchedStartedTurn>, turn: TurnKey) -> Option<int> {
    first_where(turns, |u: UnmatchedStartedTurn| u.turn.id() == turn.id())
}

/// The position of the kept end of the turn with this identity.
pub open spec fn terminal_at(ends: Seq<TerminalObservation>, turn: TurnKey) -> Option<int> {
    first_where(ends, |t: TerminalObservation| t.turn.id() == turn.id())
}

/// The account that owns the turn as well.
pub open spec fn owning(account: AccountView, turn: TurnKey) -> AccountView {
    if account.owns(turn) {
        account
    } else {
        AccountView { local_turn_registry: account.local_turn_registry.push(turn), ..account }
    }
}

/// The account after the start of a turn.
pub open spec fn after_turn_started(
    account: AccountView,
    generation: u64,
    turn: TurnKey,
    now_ms: i64,
) -> (AccountView, Seq<ReducerEffect>) {
    let seen = AccountView { updated_at: now_ms, ..account };
    let starts = account.pending_local_starts;
    if account.phase == QuotaGuardPhase::Disabled || account.owns(turn) {
        (seen, seq![])
    } else {
        match first_where(starts, |start: PendingLocalStart| claims(start, generation, turn)) {
            Some(i) => (
                owning(AccountView { pending_local_starts: starts.remove(i), ..seen }, turn),
                seq![],
            ),
            None => if first_where(
                starts,
                |start: PendingLocalStart| may_claim(start, generation, turn),
            ) is None {
                (owning(seen, turn), seq![])
            } else if unmatched_at(account.unmatched_started_turns, turn) is Some {
                (seen, seq![])
            } else if account.unmatched_started_turns.len() < PROVISIONAL_LIMIT {
                (
                    AccountView {
                        unmatched_started_turns: account.unmatched_started_turns.push(
                            UnmatchedStartedTurn { turn, generation, observed_at: now_ms },
                        ),
                        ..seen
                    },
                    seq![
                        ReducerEffect::ScheduleProvisionalExpiry {
                            turn,
                            generation,
                            terminal: false,
                            deadline: confirmation_deadline(now_ms),
                        },
                    ],
                )
            } else {
                (AccountView { last_error: Some(UNMATCHED_FULL@), ..seen }, seq![])
            },
        }
    }
}

/// Whether the error says that the usage limit is exceeded.
pub open spec fn says_limit_exceeded(error: Option<Json>) -> bool {
    error matches Some(document) && error_info(document@) == Some(
        JsonView::Text("usageLimitExceeded"@),
    )
}

/// Whether an owned turn that ended with this error closes the process.
pub open spec fn hits_limit(
    account: AccountView,
    turn: TurnKey,
    error: Option<Json>,
    settings: QuotaGuardSettings,
) -> bool {
    &&& account.phase == QuotaGuardPhase::Monitoring
    &&& settings.armed
    &&& settings.action != QuotaAction::NotifyOnly
    &&& account.owns(turn)
    &&& says_limit_exceeded(error)
}

/// The account after the end of a turn. One that ends because the usage limit is exceeded opens an
/// episode of the hard limit, and the process is closed.
pub open spec fn after_turn_terminal(
    account: AccountView,
    generation: u64,
    turn: TurnKey,
    status: String,
    error: Option<Json>,
    settings: QuotaGuardSettings,
    now_ms: i64,
) -> (AccountView, Seq<ReducerEffect>) {
    let seen = AccountView { updated_at: now_ms, ..disowned(account, turn) };
    if hits_limit(account, turn, error, settings) {
        (
            AccountView {
                phase: QuotaGuardPhase::Tripped,
                fired_episodes: with_episode(
                    account.fired_episodes,
                    EpisodeKey::HardLimit { account_key: account.account_key },
                ),
                ..seen
            },
            seq![
                ReducerEffect::SetProcessClosed,
                ReducerEffect::ReadFullRateLimits,
                ReducerEffect::FinalizeClosedEpisode { transition_id: generation },
            ],
        )
    } else if unmatched_at(account.unmatched_started_turns, turn) is None || terminal_at(
        account.terminal_observations,
        turn,
    ) is Some {
        (seen, seq![])
    } else if account.terminal_observations.len() < PROVISIONAL_LIMIT {
        (
            AccountView {
                terminal_observations: account.terminal_observations.push(
                    TerminalObservation { turn, generation, status, error, observed_at: now_ms },
                ),
                ..seen
            },
            seq![
                ReducerEffect::ScheduleProvisionalExpiry {
                    turn,
                    generation,
                    terminal: true,
                    deadline: confirmation_deadline(now_ms),
                },
            ],
        )
    } else {
        (AccountView { last_error: Some(TERMINAL_FULL@), ..seen }, seq![])
    }
}

/// The account after the configured response was asked for: it is given where a window is at
/// its threshold.
pub open spec fn after_apply(account: AccountView, settings: QuotaGuardSettings, now_ms: i64) -> (
    AccountView,
    Seq<ReducerEffect>,
) {
    if account.phase != QuotaGuardPhase::Monitoring {
        (account, seq![])
    } else {
        match spec_fired(None, snapshot_view(account.snapshot), settings, true) {
            Some((window, threshold)) => tripped(
                AccountView { updated_at: now_ms, ..account },
                settings.action,
                window,
                threshold,
            ),
            None => (account, seq![]),
        }
    }
}

/// The starts without the one of this request.
pub open spec fn without_request(starts: Seq<PendingLocalStart>, request_id: u64) -> Seq<
    PendingLocalStart,
> {
    starts.filter(|start: PendingLocalStart| start.request_id != request_id)
}

/// The account after a start was asked for here.
pub open spec fn after_start_recorded(
    account: AccountView,
    generation: u64,
    start: PendingLocalStart,
    now_ms: i64,
) -> (AccountView, Seq<ReducerEffect>) {
    if account.phase == QuotaGuardPhase::Disabled || start.generation != generation {
        (account, seq![])
    } else {
        (
            AccountView {
                pending_local_starts: with_start(
                    without_request(account.pending_local_starts, start.request_id),
                    start,
                ),
                updated_at: now_ms,
                ..account
            },
            seq![
                ReducerEffect::ScheduleStartExpiry {
                    request_id: start.request_id,
                    generation,
                    deadline: confirmation_deadline(now_ms),
                },
            ],
        )
    }
}

/// Whether the start has this request and this generation.
pub open spec fn requested(start: PendingLocalStart, request_id: u64, generation: u64) -> bool {
    start.request_id == request_id && start.generation == generation
}

/// The account after a start failed.
pub open spec fn after_start_failed(
    account: AccountView,
    request_id: u64,
    generation: u64,
    now_ms: i64,
) -> AccountView {
    match first_where(
        account.pending_local_starts,
        |start: PendingLocalStart| requested(start, request_id, generation),
    ) {
        Some(i) => AccountView {
            pending_local_starts: account.pending_local_starts.remove(i),
            updated_at: now_ms,
            ..account
        },
        None => account,
    }
}

/// The account after a start stayed unconfirmed for too long: where the limiter enforces, it
/// closes and asks for intervention.
pub open spec fn after_start_expired(
    account: AccountView,
    request_id: u64,
    generation: u64,
    now_ms: i64,
) -> (AccountView, Seq<ReducerEffect>) {
    let rest = after_start_failed(account, request_id, generation, now_ms);
    if first_where(
        account.pending_local_starts,
        |start: PendingLocalStart| requested(start, request_id, generation),
    ) is Some && account.phase == QuotaGuardPhase::Tripped {
        (
            AccountView {
                phase: QuotaGuardPhase::InterventionRequired,
                last_error: Some(START_EXPIRED@),
                ..rest
            },
            seq![ReducerEffect::SetProcessClosed],
        )
    } else {
        (rest, seq![])
    }
}

/// The account after an unmatched turn, or the kept end of one, waited for too long.
pub open spec fn after_provisional_expired(
    account: AccountView,
    turn: TurnKey,
    generation: u64,
    terminal: bool,
    now_ms: i64,
) -> AccountView {
    if terminal {
        AccountView {
            terminal_observations: account.terminal_observations.filter(
                |t: TerminalObservation| t.turn.id() != turn.id() || t.generation != generation,
            ),
            updated_at: now_ms,
            ..account
        }
    } else {
        AccountView {
            unmatched_started_turns: account.unmatched_started_turns.filter(
                |u: UnmatchedStartedTurn| u.turn.id() != turn.id() || u.generation != generation,
            ),
            updated_at: now_ms,
            ..account
        }
    }
}

/// Whether the unmatched turn belongs to the thread that a start's response names.
pub open spec fn in_thread(
    unmatched: UnmatchedStartedTurn,
    generation: u64,
    session_epoch: Seq<char>,
    workspace_id: Seq<char>,
    thread_id: Seq<char>,
) -> bool {
    &&& unmatched.generation == generation
    &&& unmatched.turn.session_epoch@ == session_epoch
    &&& unmatched.turn.workspace_id@ == workspace_id
    &&& unmatched.turn.thread_id@ == thread_id
}

/// Whether the start is the one that a response answers.
pub open spec fn answered(
    start: PendingLocalStart,
    generation: u64,
    request_id: u64,
    session_epoch: Seq<char>,
    workspace_id: Seq<char>,
) -> bool {
    &&& requested(start, request_id, generation)
    &&& start.session_epoch@ == session_epoch
    &&& start.workspace_id@ == workspace_id
}

/// The account once the unmatched turn at `at` has proved to be the one that was asked for: it
/// is owned, unless its end has been seen already.
pub open spec fn promoted(account: AccountView, at: int) -> AccountView {
    let turn = account.unmatched_started_turns[at].turn;
    let matched = AccountView {
        unmatched_started_turns: account.unmatched_started_turns.remove(at),
        ..account
    };
    match terminal_at(account.terminal_observations, turn) {
        Some(k) => AccountView {
            terminal_observations: account.terminal_observations.remove(k),
            ..matched
        },
        None => owning(matched, turn),
    }
}

/// The account after the response to a start.
pub open spec fn after_start_response(
    account: AccountView,
    generation: u64,
    request_id: u64,
    session_epoch: Seq<char>,
    workspace_id: Seq<char>,
    thread_id: Option<String>,
    now_ms: i64,
) -> AccountView {
    let starts = account.pending_local_starts;
    match first_where(
        starts,
        |start: PendingLocalStart|
            answered(start, generation, request_id, session_epoch, workspace_id),
    ) {
        None => account,
        Some(i) => {
            let noted = AccountView {
                pending_local_starts: starts.update(
                    i,
                    PendingLocalStart {
                        response_thread_id: if thread_id is Some {
                            thread_id
                        } else {
                            starts[i].response_thread_id
                        },
                        response_received_at: Some(now_ms),
                        ..starts[i]
                    },
                ),
                updated_at: now_ms,
                ..account
            };
            match thread_id {
                None => noted,
                Some(thread) => match first_where(
                    account.unmatched_started_turns,
                    |u: UnmatchedStartedTurn|
                        in_thread(u, generation, session_epoch, workspace_id, thread@),
                ) {
                    None => noted,
                    Some(j) => promoted(
                        AccountView {
                            pending_local_starts: noted.pending_local_starts.remove(i),
                            ..noted
                        },
                        j,
                    ),
                },
            }
        },
    }
}

/// The account after an event other than `Enable` and `FinalizeClosedEpisode`.
pub open spec fn account_step(
    account: AccountView,
    generation: u64,
    event: ReducerEvent,
    settings: QuotaGuardSettings,
) -> (AccountView, Seq<ReducerEffect>) {
    let reopening = seq![ReducerEffect::ResumeExternalEngines, ReducerEffect::SetProcessOpen];
    match event {
        ReducerEvent::Disable { now_ms } => (
            AccountView { phase: QuotaGuardPhase::Disabled, updated_at: now_ms, ..account },
            reopening,
        ),
        ReducerEvent::Resume { now_ms } => (
            AccountView { phase: QuotaGuardPhase::Monitoring, updated_at: now_ms, ..account },
            reopening,
        ),
        ReducerEvent::Snapshot { snapshot, now_ms, .. } => after_snapshot(
            account,
            snapshot,
            settings,
            now_ms,
        ),
        ReducerEvent::TurnStarted { turn, now_ms } => after_turn_started(
            account,
            generation,
            turn,
            now_ms,
        ),
        ReducerEvent::TurnTerminal { turn, status, error, now_ms } => after_turn_terminal(
            account,
            generation,
            turn,
            status,
            error,
            settings,
            now_ms,
        ),
        ReducerEvent::ApplyActionNow { now_ms } => after_apply(account, settings, now_ms),
        ReducerEvent::InterruptAcknowledged { turn, generation, operation_id, attempt, now_ms } => {
            after_acknowledged(account, turn, generation, operation_id, attempt, now_ms)
        },
        ReducerEvent::InterruptDeadline {
            turn,
            generation,
            operation_id,
            attempt,
            acknowledgement,
            now_ms,
        } => (
            account,
            at_deadline(
                account,
                turn,
                generation,
                operation_id,
                attempt,
                acknowledgement,
                now_ms,
            ),
        ),
        ReducerEvent::InterruptReconciled {
            active_turn_id,
            turn,
            generation,
            operation_id,
            attempt,
            now_ms,
        } => after_reconciled(
            account,
            turn,
            generation,
            operation_id,
            attempt,
            text_view(active_turn_id),
            now_ms,
        ),
        ReducerEvent::RehydratePendingInterrupts { .. } => (
            account,
            rehydrated(account.pending_interrupt_index),
        ),
        ReducerEvent::PendingStartRecorded { start, now_ms } => after_start_recorded(
            account,
            generation,
            start,
            now_ms,
        ),
        ReducerEvent::PendingStartFailed { request_id, generation, now_ms } => (
            after_start_failed(account, request_id, generation, now_ms),
            seq![],
        ),
        ReducerEvent::PendingStartExpired { request_id, generation, now_ms } => after_start_expired(
            account,
            request_id,
            generation,
            now_ms,
        ),
        ReducerEvent::ProvisionalExpired { turn, generation, terminal, now_ms } => (
            after_provisional_expired(account, turn, generation, terminal, now_ms),
            seq![],
        ),
        ReducerEvent::StartResponse {
            request_id,
            session_epoch,
            workspace_id,
            thread_id,
            now_ms,
        } => (
            after_start_response(
                account,
                generation,
                request_id,
                session_epoch@,
                workspace_id@,
                thread_id,
                now_ms,
            ),
            seq![],
        ),
        _ => (account, seq![]),
    }
}

/// The account that monitoring starts with, in place of `account`.
pub open spec fn enabled(account: Option<AccountView>, account_key: String, now_ms: i64) -> AccountView {
    AccountView {
        account_key,
        phase: QuotaGuardPhase::Monitoring,
        updated_at: now_ms,
        ..match account {
            Some(known) => known,
            None => AccountView::fresh(account_key, now_ms),
        }
    }
}

/// The state after an event, and the effects to run.
pub open spec fn reduced(
    runtime: RuntimeView,
    event: ReducerEvent,
    settings: QuotaGuardSettings,
) -> (RuntimeView, Seq<ReducerEffect>) {
    match event {
        ReducerEvent::Enable { account_key, now_ms } => (
            RuntimeView {
                lifecycle_generation: if runtime.lifecycle_generation == u64::MAX {
                    u64::MAX
                } else {
                    (runtime.lifecycle_generation + 1) as u64
                },
                account: Some(enabled(runtime.account, account_key, now_ms)),
                ..runtime
            },
            seq![ReducerEffect::SetProcessOpen],
        ),
        ReducerEvent::FinalizeClosedEpisode { transition_id, now_ms } => match runtime.account {
            Some(account) => {
                let (next, next_operation_id, effects) = after_finalized(
                    account,
                    runtime.next_operation_id,
                    runtime.lifecycle_generation,
                    transition_id,
                    now_ms,
                );
                (RuntimeView { account: Some(next), next_operation_id, ..runtime }, effects)
            },
            None => (runtime, seq![]),
        },
        _ => match runtime.account {
            Some(account) => {
                let (next, effects) = account_step(
                    account,
                    runtime.lifecycle_generation,
                    event,
                    settings,
                );
                (RuntimeView { account: Some(next), ..runtime }, effects)
            },
            None => (runtime, seq![]),
        },
    }
}

/// The threshold of a window; a hard limit is reached at full use.
pub fn threshold(settings: &QuotaGuardSettings, kind: QuotaWindowKind) -> (r: u8)
    ensures
        r == spec_threshold(*settings, kind),
{
    match kind {
        QuotaWindowKind::Primary => settings.primary_threshold_percent,
        QuotaWindowKind::Secondary => settings.secondary_threshold_percent,
        QuotaWindowKind::HardLimit => 100,
    }
}

fn used_percent_of(snapshot: Option<&RateLimitSnapshot>, kind: QuotaWindowKind) -> (r: Option<u8>)
    ensures
        r == use_of(
            match snapshot {
                Some(s) => Some(s@),
                None => None,
            },
            kind,
        ),
{
    match snapshot {
        Some(s) => match s.window(kind) {
            Some(window) => Some(window.used_percent),
            None => None,
        },
        None => None,
    }
}

fn window_crosses(
    previous: Option<&RateLimitSnapshot>,
    current: Option<&RateLimitSnapshot>,
    settings: &QuotaGuardSettings,
    force: bool,
    kind: QuotaWindowKind,
) -> (r: bool)
    ensures
        r == crosses(
            match previous {
                Some(s) => Some(s@),
                None => None,
            },
            match current {
                Some(s) => Some(s@),
                None => None,
            },
            *settings,
            force,
            kind,
        ),
{
    let floor = threshold(settings, kind);
    let at_floor = match used_percent_of(current, kind) {
        Some(used) => used >= floor,
        None => false,
    };
    let was_below = force || match used_percent_of(previous, kind) {
        Some(used) => used < floor,
        None => true,
    };
    at_floor && was_below
}

/// The window of the account's snapshot to respond to, with its threshold.
pub fn fired(
    account: &AccountRuntime,
    previous: Option<&RateLimitSnapshot>,
    settings: &QuotaGuardSettings,
    force: bool,
) -> (r: Option<(QuotaWindowKind, u8)>)
    ensures
        r == spec_fired(
            match previous {
                Some(s) => Some(s@),
                None => None,
            },
            snapshot_view(account.snapshot),
            *settings,
            force,
        ),
{
    let current = account.snapshot.as_ref();
    if window_crosses(previous, current, settings, force, QuotaWindowKind::Primary) {
        Some((QuotaWindowKind::Primary, settings.primary_threshold_percent))
    } else if window_crosses(previous, current, settings, force, QuotaWindowKind::Secondary) {
        Some((QuotaWindowKind::Secondary, settings.secondary_threshold_percent))
    } else {
        None
    }
}

/// Whether the primary window was reset between the two snapshots.
pub fn primary_reset_observed(
    previous: Option<&RateLimitSnapshot>,
    current: &RateLimitSnapshot,
) -> (r: bool)
    ensures
        r == reset_between(
            match previous {
                Some(s) => Some(s@),
                None => None,
            },
            current@,
        ),
{
    let before = match previous {
        Some(snapshot) => match snapshot.primary {
            Some(window) => window,
            None => {
                return false;
            },
        },
        None => {
            return false;
        },
    };
    let now = match current.primary {
        Some(window) => window,
        None => {
            return false;
        },
    };
    match (before.reset_at, now.reset_at) {
        (Some(old_reset), Some(new_reset)) => new_reset > old_reset,
        _ => before.used_percent.saturating_sub(now.used_percent) >= 20,
    }
}

fn push_interrupts(turns: &Vec<TurnKey>, effects: &mut Vec<ReducerEffect>)
    ensures
        final(effects)@ == old(effects)@ + interrupts(turns@),
{
    let ghost before = effects@;
    let mut i: usize = 0;
    while i < turns.len()
        invariant
            i <= turns@.len(),
            effects@ == before + interrupts(turns@.take(i as int)),
        decreases turns@.len() - i,
    {
        effects.push(
            ReducerEffect::Interrupt {
                turn: turns[i].clone(),
                generation: 0,
                operation_id: 0,
                attempt: 1,
            },
        );
        assert(interrupts(turns@.take(i + 1)) =~= interrupts(turns@.take(i as int)).push(
            ReducerEffect::Interrupt {
                turn: turns@[i as int],
                generation: 0,
                operation_id: 0,
                attempt: 1,
            },
        ));
        i += 1;
    }
    assert(turns@.take(turns@.len() as int) =~= turns@);
}

/// Responds to a window that has reached its threshold.
pub fn trip(
    account: &mut AccountRuntime,
    settings: &QuotaGuardSettings,
    window: QuotaWindowKind,
    floor: u8,
    effects: &mut Vec<ReducerEffect>,
)
    ensures
        final(account)@ == tripped(old(account)@, settings.action, window, floor).0,
        final(effects)@ == old(effects)@ + tripped(
            old(account)@,
            settings.action,
            window,
            floor,
        ).1,
{
    let ghost before = effects@;
    match settings.action {
        QuotaAction::NotifyOnly => {
            effects.push(
                ReducerEffect::Notify {
                    episode: EpisodeKey::Threshold {
                        account_key: account.account_key.clone(),
                        window,
                        threshold_percent: floor,
                        resets_at: None,
                    },
                },
            );
        },
        QuotaAction::Interrupt => {
            account.phase = QuotaGuardPhase::Tripped;
            effects.push(ReducerEffect::SetProcessClosed);
            effects.push(ReducerEffect::SuspendExternalEngines);
            push_interrupts(&account.local_turn_registry, effects);
            effects.push(ReducerEffect::PersistDisarmed);
            effects.push(ReducerEffect::SetProcessOpen);
        },
        QuotaAction::Block => {
            account.phase = QuotaGuardPhase::Tripped;
            effects.push(ReducerEffect::SetProcessClosed);
            effects.push(ReducerEffect::SuspendExternalEngines);
            push_interrupts(&account.local_turn_registry, effects);
        },
    }
    assert(effects@ =~= before + tripped(old(account)@, settings.action, window, floor).1);
}

fn rearm(account: &mut AccountRuntime, percent_left: u8, used: u8, now_ms: i64) -> (effects: Vec<
    ReducerEffect,
>)
    requires
        percent_left <= 100,
    ensures
        final(account)@ == rearmed(old(account)@, percent_left, used, now_ms).0,
        effects@ == rearmed(old(account)@, percent_left, used, now_ms).1,
{
    let floor: u8 = 100 - percent_left;
    let threshold_percent: u8 = if floor >= used { floor } else { used };
    account.phase = QuotaGuardPhase::Monitoring;
    account.fire_at_or_above_on_next_snapshot = threshold_percent == used;
    let mut message = "Automatically rearmed after usage reset at ".to_owned();
    message.append(decimal_text(percent_left as u64).as_str());
    message.append("% left.");
    account.push_activity(
        QuotaGuardActivityEntry::message_entry(
            QuotaGuardActivityKind::StateChanged,
            now_ms,
            message,
        ),
    );
    let mut effects: Vec<ReducerEffect> = Vec::new();
    effects.push(ReducerEffect::ResumeExternalEngines);
    effects.push(ReducerEffect::SetProcessOpen);
    effects.push(ReducerEffect::PersistAutoRearm { threshold_percent });
    assert(effects@ =~= rearmed(old(account)@, percent_left, used, now_ms).1);
    effects
}

fn apply_snapshot(
    account: &mut AccountRuntime,
    snapshot: RateLimitSnapshot,
    settings: &QuotaGuardSettings,
    now_ms: i64,
) -> (effects: Vec<ReducerEffect>)
    requires
        settings.rearm_after_reset_percent_left matches Some(percent) ==> percent <= 100,
    ensures
        final(account)@ == after_snapshot(old(account)@, snapshot, *settings, now_ms).0,
        effects@ == after_snapshot(old(account)@, snapshot, *settings, now_ms).1,
{
    let previous = account.snapshot.take();
    let reset_observed = primary_reset_observed(previous.as_ref(), &snapshot);
    let primary_used = used_percent_of(Some(&snapshot), QuotaWindowKind::Primary);
    let secondary_used = used_percent_of(Some(&snapshot), QuotaWindowKind::Secondary);
    account.snapshot = Some(snapshot);
    account.updated_at = now_ms;
    let mut effects: Vec<ReducerEffect> = Vec::new();
    if reset_observed {
        if let Some(percent_left) = settings.rearm_after_reset_percent_left {
            let used: u8 = match primary_used {
                Some(used) => used,
                None => 0,
            };
            return rearm(account, percent_left, used, now_ms);
        }
    }
    if !settings.armed {
        let used: u8 = match (primary_used, secondary_used) {
            (Some(a), Some(b)) => if a >= b { a } else { b },
            (Some(a), None) => a,
            (None, Some(b)) => b,
            (None, None) => 0,
        };
        let floor: u8 = if settings.primary_threshold_percent
            <= settings.secondary_threshold_percent {
            settings.primary_threshold_percent
        } else {
            settings.secondary_threshold_percent
        };
        if used > floor {
            effects.push(ReducerEffect::RaiseThresholds { used_percent: used });
        }
        return effects;
    }
    if account.phase == QuotaGuardPhase::Tripped && settings.action == QuotaAction::Block {
        effects.push(ReducerEffect::MaintainExternalEngineSuspension { prevent_new_sessions: true });
        return effects;
    }
    if account.phase == QuotaGuardPhase::Monitoring {
        let force = previous.is_none() || account.fire_at_or_above_on_next_snapshot;
        account.fire_at_or_above_on_next_snapshot = false;
        if let Some((window, floor)) = fired(account, previous.as_ref(), settings, force) {
            trip(account, settings, window, floor, &mut effects);
        }
    }
    effects
}

/// The moment at which something seen at `now_ms` is given up.
pub fn deadline_after(now_ms: i64) -> (r: i64)
    ensures
        r == confirmation_deadline(now_ms),
{
    match now_ms.checked_add(CONFIRMATION_MS) {
        Some(deadline) => deadline,
        None => i64::MAX,
    }
}

fn start_awaits(start: &PendingLocalStart, generation: u64, turn: &TurnKey) -> (r: bool)
    ensures
        r == awaits(*start, generation, *turn),
{
    start.generation == generation && same_text(
        start.session_epoch.as_str(),
        turn.session_epoch.as_str(),
    ) && same_text(start.workspace_id.as_str(), turn.workspace_id.as_str())
}

fn start_claims(start: &PendingLocalStart, generation: u64, turn: &TurnKey) -> (r: bool)
    ensures
        r == claims(*start, generation, *turn),
{
    if !start_awaits(start, generation, turn) {
        return false;
    }
    match (&start.response_thread_id, &start.expected_thread_id) {
        (Some(thread), _) => same_text(thread.as_str(), turn.thread_id.as_str()),
        (None, Some(thread)) => same_text(thread.as_str(), turn.thread_id.as_str()),
        (None, None) => false,
    }
}

fn start_may_claim(start: &PendingLocalStart, generation: u64, turn: &TurnKey) -> (r: bool)
    ensures
        r == may_claim(*start, generation, *turn),
{
    start_awaits(start, generation, turn) && start.response_thread_id.is_none()
        && start.expected_thread_id.is_none()
}

fn find_unmatched(turns: &Vec<UnmatchedStartedTurn>, turn: &TurnKey) -> (r: Option<usize>)
    ensures
        match r {
            Some(at) => unmatched_at(turns@, *turn) == Some(at as int) && at < turns@.len(),
            None => unmatched_at(turns@, *turn) is None,
        },
{
    let wanted = |u: &UnmatchedStartedTurn| -> (b: bool)
        ensures
            b == (u.turn.id() == turn.id()),
    { u.turn.same_id(turn) };
    position_where(
        turns,
        wanted,
        Ghost(|u: UnmatchedStartedTurn| u.turn.id() == turn.id()),
    )
}

fn find_terminal(ends: &Vec<TerminalObservation>, turn: &TurnKey) -> (r: Option<usize>)
    ensures
        match r {
            Some(at) => terminal_at(ends@, *turn) == Some(at as int) && at < ends@.len(),
            None => terminal_at(ends@, *turn) is None,
        },
{
    let wanted = |t: &TerminalObservation| -> (b: bool)
        ensures
            b == (t.turn.id() == turn.id()),
    { t.turn.same_id(turn) };
    position_where(
        ends,
        wanted,
        Ghost(|t: TerminalObservation| t.turn.id() == turn.id()),
    )
}

fn is_owned(account: &AccountRuntime, turn: &TurnKey) -> (r: bool)
    ensures
        r == account@.owns(*turn),
{
    let wanted = |known: &TurnKey| -> (b: bool)
        ensures
            b == (known.id() == turn.id()),
    { known.same_id(turn) };
    let found = position_where(
        &account.local_turn_registry,
        wanted,
        Ghost(|known: TurnKey| known.id() == turn.id()),
    );
    proof {
        lemma_first_where_found(
            account.local_turn_registry@,
            |known: TurnKey| known.id() == turn.id(),
        );
        if account@.owns(*turn) {
            let turns = account@.local_turn_registry;
            let i = choose|i: int| 0 <= i < turns.len() && (#[trigger] turns[i]).id() == turn.id();
            assert((|known: TurnKey| known.id() == turn.id())(turns[i]));
        }
    }
    found.is_some()
}

fn own(account: &mut AccountRuntime, turn: TurnKey)
    ensures
        final(account)@ == owning(old(account)@, turn),
{
    if !is_owned(account, &turn) {
        account.local_turn_registry.push(turn);
    }
}

fn start_turn(account: &mut AccountRuntime, generation: u64, turn: TurnKey, now_ms: i64) -> (effects:
    Vec<ReducerEffect>)
    ensures
        final(account)@ == after_turn_started(old(account)@, generation, turn, now_ms).0,
        effects@ == after_turn_started(old(account)@, generation, turn, now_ms).1,
{
    let mut effects: Vec<ReducerEffect> = Vec::new();
    let key = &turn;
    account.updated_at = now_ms;
    if account.phase == QuotaGuardPhase::Disabled || is_owned(account, &turn) {
        return effects;
    }
    let wanted = |start: &PendingLocalStart| -> (b: bool)
        ensures
            b == claims(*start, generation, *key),
    { start_claims(start, generation, key) };
    let claimed = position_where(
        &account.pending_local_starts,
        wanted,
        Ghost(|start: PendingLocalStart| claims(start, generation, turn)),
    );
    if let Some(i) = claimed {
        account.pending_local_starts.remove(i);
        own(account, turn);
        return effects;
    }
    let wanted = |start: &PendingLocalStart| -> (b: bool)
        ensures
            b == may_claim(*start, generation, *key),
    { start_may_claim(start, generation, key) };
    let open = position_where(
        &account.pending_local_starts,
        wanted,
        Ghost(|start: PendingLocalStart| may_claim(start, generation, turn)),
    );
    if open.is_none() {
        own(account, turn);
        return effects;
    }
    if find_unmatched(&account.unmatched_started_turns, &turn).is_some() {
        return effects;
    }
    let scheduled = turn.clone();
    match account.push_unmatched_started_turn(
        UnmatchedStartedTurn { turn, generation, observed_at: now_ms },
    ) {
        Ok(()) => {
            effects.push(
                ReducerEffect::ScheduleProvisionalExpiry {
                    turn: scheduled,
                    generation,
                    terminal: false,
                    deadline: deadline_after(now_ms),
                },
            );
        },
        Err(message) => {
            account.last_error = Some(message);
        },
    }
    effects
}

fn error_says_limit_exceeded(error: &Option<Json>) -> (r: bool)
    ensures
        r == says_limit_exceeded(*error),
{
    match error {
        Some(document) => is_usage_limit_exceeded(document),
        None => false,
    }
}

fn end_turn(
    account: &mut AccountRuntime,
    generation: u64,
    turn: TurnKey,
    status: String,
    error: Option<Json>,
    settings: &QuotaGuardSettings,
    now_ms: i64,
) -> (effects: Vec<ReducerEffect>)
    ensures
        final(account)@ == after_turn_terminal(
            old(account)@,
            generation,
            turn,
            status,
            error,
            *settings,
            now_ms,
        ).0,
        effects@ == after_turn_terminal(
            old(account)@,
            generation,
            turn,
            status,
            error,
            *settings,
            now_ms,
        ).1,
{
    let mut effects: Vec<ReducerEffect> = Vec::new();
    let closes = account.phase == QuotaGuardPhase::Monitoring && settings.armed && settings.action
        != QuotaAction::NotifyOnly && is_owned(account, &turn) && error_says_limit_exceeded(&error);
    disown(account, &turn);
    account.updated_at = now_ms;
    if closes {
        account.phase = QuotaGuardPhase::Tripped;
        let episode = EpisodeKey::HardLimit { account_key: account.account_key.clone() };
        if !has_episode(&account.fired_episodes, &episode) {
            account.fired_episodes.push(episode);
        }
        effects.push(ReducerEffect::SetProcessClosed);
        effects.push(ReducerEffect::ReadFullRateLimits);
        effects.push(ReducerEffect::FinalizeClosedEpisode { transition_id: generation });
        return effects;
    }
    if find_unmatched(&account.unmatched_started_turns, &turn).is_none() || find_terminal(
        &account.terminal_observations,
        &turn,
    ).is_some() {
        return effects;
    }
    let scheduled = turn.clone();
    match account.push_terminal_observation(
        TerminalObservation { turn, generation, status, error, observed_at: now_ms },
    ) {
        Ok(()) => {
            effects.push(
                ReducerEffect::ScheduleProvisionalExpiry {
                    turn: scheduled,
                    generation,
                    terminal: true,
                    deadline: deadline_after(now_ms),
                },
            );
        },
        Err(message) => {
            account.last_error = Some(message);
        },
    }
    effects
}

fn apply_action(account: &mut AccountRuntime, settings: &QuotaGuardSettings, now_ms: i64) -> (effects:
    Vec<ReducerEffect>)
    ensures
        final(account)@ == after_apply(old(account)@, *settings, now_ms).0,
        effects@ == after_apply(old(account)@, *settings, now_ms).1,
{
    let mut effects: Vec<ReducerEffect> = Vec::new();
    if account.phase == QuotaGuardPhase::Monitoring {
        if let Some((window, floor)) = fired(account, None, settings, true) {
            account.updated_at = now_ms;
            trip(account, settings, window, floor, &mut effects);
        }
    }
    effects
}

fn record_start(
    account: &mut AccountRuntime,
    generation: u64,
    start: PendingLocalStart,
    now_ms: i64,
) -> (effects: Vec<ReducerEffect>)
    ensures
        final(account)@ == after_start_recorded(old(account)@, generation, start, now_ms).0,
        effects@ == after_start_recorded(old(account)@, generation, start, now_ms).1,
{
    let mut effects: Vec<ReducerEffect> = Vec::new();
    if account.phase == QuotaGuardPhase::Disabled || start.generation != generation {
        return effects;
    }
    let request_id: u64 = start.request_id;
    let keep = |known: &PendingLocalStart| -> (b: bool)
        ensures
            b == (known.request_id != request_id),
    { known.request_id != request_id };
    retain_where(
        &mut account.pending_local_starts,
        keep,
        Ghost(|known: PendingLocalStart| known.request_id != request_id),
    );
    place_start(&mut account.pending_local_starts, start);
    account.updated_at = now_ms;
    effects.push(
        ReducerEffect::ScheduleStartExpiry {
            request_id,
            generation,
            deadline: deadline_after(now_ms),
        },
    );
    effects
}

fn drop_start(account: &mut AccountRuntime, request_id: u64, generation: u64, now_ms: i64) -> (found:
    bool)
    ensures
        final(account)@ == after_start_failed(old(account)@, request_id, generation, now_ms),
        found == first_where(
            old(account)@.pending_local_starts,
            |start: PendingLocalStart| requested(start, request_id, generation),
        ) is Some,
{
    let wanted = |start: &PendingLocalStart| -> (b: bool)
        ensures
            b == requested(*start, request_id, generation),
    { start.request_id == request_id && start.generation == generation };
    let at = position_where(
        &account.pending_local_starts,
        wanted,
        Ghost(|start: PendingLocalStart| requested(start, request_id, generation)),
    );
    match at {
        Some(i) => {
            account.pending_local_starts.remove(i);
            account.updated_at = now_ms;
            true
        },
        None => false,
    }
}

fn expire_start(account: &mut AccountRuntime, request_id: u64, generation: u64, now_ms: i64) -> (effects:
    Vec<ReducerEffect>)
    ensures
        final(account)@ == after_start_expired(old(account)@, request_id, generation, now_ms).0,
        effects@ == after_start_expired(old(account)@, request_id, generation, now_ms).1,
{
    let mut effects: Vec<ReducerEffect> = Vec::new();
    if drop_start(account, request_id, generation, now_ms) && account.phase
        == QuotaGuardPhase::Tripped {
        account.phase = QuotaGuardPhase::InterventionRequired;
        account.last_error = Some(START_EXPIRED.to_owned());
        effects.push(ReducerEffect::SetProcessClosed);
    }
    effects
}

fn expire_provisional(
    account: &mut AccountRuntime,
    turn: &TurnKey,
    generation: u64,
    terminal: bool,
    now_ms: i64,
)
    ensures
        final(account)@ == after_provisional_expired(
            old(account)@,
            *turn,
            generation,
            terminal,
            now_ms,
        ),
{
    if terminal {
        let keep = |t: &TerminalObservation| -> (b: bool)
            ensures
                b == (t.turn.id() != turn.id() || t.generation != generation),
        { !t.turn.same_id(turn) || t.generation != generation };
        retain_where(
            &mut account.terminal_observations,
            keep,
            Ghost(
                |t: TerminalObservation| t.turn.id() != turn.id() || t.generation != generation,
            ),
        );
    } else {
        let keep = |u: &UnmatchedStartedTurn| -> (b: bool)
            ensures
                b == (u.turn.id() != turn.id() || u.generation != generation),
        { !u.turn.same_id(turn) || u.generation != generation };
        retain_where(
            &mut account.unmatched_started_turns,
            keep,
            Ghost(
                |u: UnmatchedStartedTurn| u.turn.id() != turn.id() || u.generation != generation,
            ),
        );
    }
    account.updated_at = now_ms;
}

fn promote(account: &mut AccountRuntime, at: usize)
    requires
        at < old(account)@.unmatched_started_turns.len(),
    ensures
        final(account)@ == promoted(old(account)@, at as int),
{
    let unmatched = account.unmatched_started_turns.remove(at);
    match find_terminal(&account.terminal_observations, &unmatched.turn) {
        Some(k) => {
            account.terminal_observations.remove(k);
        },
        None => {
            own(account, unmatched.turn);
        },
    }
}

fn answer_start(
    account: &mut AccountRuntime,
    generation: u64,
    request_id: u64,
    session_epoch: &String,
    workspace_id: &String,
    thread_id: Option<String>,
    now_ms: i64,
)
    ensures
        final(account)@ == after_start_response(
            old(account)@,
            generation,
            request_id,
            session_epoch@,
            workspace_id@,
            thread_id,
            now_ms,
        ),
{
    let wanted = |start: &PendingLocalStart| -> (b: bool)
        ensures
            b == answered(*start, generation, request_id, session_epoch@, workspace_id@),
    { start.request_id == request_id && start.generation == generation && same_text( start.session_epoch.as_str(), session_epoch.as_str(), ) && same_text(start.workspace_id.as_str(), workspace_id.as_str()) };
    let found = position_where(
        &account.pending_local_starts,
        wanted,
        Ghost(
            |start: PendingLocalStart|
                answered(start, generation, request_id, session_epoch@, workspace_id@),
        ),
    );
    let i: usize = match found {
        Some(i) => i,
        None => {
            return ;
        },
    };
    account.updated_at = now_ms;
    let mut start = account.pending_local_starts.remove(i);
    start.response_received_at = Some(now_ms);
    let thread = match thread_id {
        Some(thread) => thread,
        None => {
            account.pending_local_starts.insert(i, start);
            assert(account@.pending_local_starts =~= after_start_response(
                old(account)@,
                generation,
                request_id,
                session_epoch@,
                workspace_id@,
                None,
                now_ms,
            ).pending_local_starts);
            return ;
        },
    };
    let wanted = |u: &UnmatchedStartedTurn| -> (b: bool)
        ensures
            b == in_thread(*u, generation, session_epoch@, workspace_id@, thread@),
    { u.generation == generation && same_text( u.turn.session_epoch.as_str(), session_epoch.as_str(), ) && same_text(u.turn.workspace_id.as_str(), workspace_id.as_str()) && same_text( u.turn.thread_id.as_str(), thread.as_str(), ) };
    let matched = position_where(
        &account.unmatched_started_turns,
        wanted,
        Ghost(
            |u: UnmatchedStartedTurn|
                in_thread(u, generation, session_epoch@, workspace_id@, thread@),
        ),
    );
    match matched {
        Some(j) => {
            assert(account@.pending_local_starts =~= old(account)@.pending_local_starts.update(
                i as int,
                start,
            ).remove(i as int));
            proof {
                let starts = old(account)@.pending_local_starts;
                let noted = starts.update(
                    i as int,
                    PendingLocalStart {
                        response_thread_id: thread_id,
                        response_received_at: Some(now_ms),
                        ..starts[i as int]
                    },
                );
                assert(noted.remove(i as int) =~= account@.pending_local_starts);
            }
            promote(account, j);
        },
        None => {
            start.response_thread_id = Some(thread);
            account.pending_local_starts.insert(i, start);
            assert(account@.pending_local_starts =~= after_start_response(
                old(account)@,
                generation,
                request_id,
                session_epoch@,
                workspace_id@,
                thread_id,
                now_ms,
            ).pending_local_starts);
        },
    }
}

fn step(
    account: &mut AccountRuntime,
    generation: u64,
    event: ReducerEvent,
    settings: &QuotaGuardSettings,
) -> (effects: Vec<ReducerEffect>)
    requires
        settings.rearm_after_reset_percent_left matches Some(percent) ==> percent <= 100,
    ensures
        final(account)@ == account_step(old(account)@, generation, event, *settings).0,
        effects@ == account_step(old(account)@, generation, event, *settings).1,
{
    let mut effects: Vec<ReducerEffect> = Vec::new();
    match event {
        ReducerEvent::Disable { now_ms } => {
            account.phase = QuotaGuardPhase::Disabled;
            account.updated_at = now_ms;
            effects.push(ReducerEffect::ResumeExternalEngines);
            effects.push(ReducerEffect::SetProcessOpen);
        },
        ReducerEvent::Resume { now_ms } => {
            account.phase = QuotaGuardPhase::Monitoring;
            account.updated_at = now_ms;
            effects.push(ReducerEffect::ResumeExternalEngines);
            effects.push(ReducerEffect::SetProcessOpen);
        },
        ReducerEvent::Snapshot { snapshot, now_ms, .. } => {
            return apply_snapshot(account, snapshot, settings, now_ms);
        },
        ReducerEvent::TurnStarted { turn, now_ms } => {
            return start_turn(account, generation, turn, now_ms);
        },
        ReducerEvent::TurnTerminal { turn, status, error, now_ms } => {
            return end_turn(account, generation, turn, status, error, settings, now_ms);
        },
        ReducerEvent::ApplyActionNow { now_ms } => {
            return apply_action(account, settings, now_ms);
        },
        ReducerEvent::InterruptAcknowledged { turn, generation, operation_id, attempt, now_ms } => {
            return acknowledge(account, &turn, generation, operation_id, attempt, now_ms);
        },
        ReducerEvent::InterruptDeadline {
            turn,
            generation,
            operation_id,
            attempt,
            acknowledgement,
            now_ms,
        } => {
            return deadline_effects(
                account,
                &turn,
                generation,
                operation_id,
                attempt,
                acknowledgement,
                now_ms,
            );
        },
        ReducerEvent::InterruptReconciled {
            active_turn_id,
            turn,
            generation,
            operation_id,
            attempt,
            now_ms,
        } => {
            return reconcile(
                account,
                &turn,
                generation,
                operation_id,
                attempt,
                &active_turn_id,
                now_ms,
            );
        },
        ReducerEvent::RehydratePendingInterrupts { .. } => {
            return rehydrate(account);
        },
        ReducerEvent::PendingStartRecorded { start, now_ms } => {
            return record_start(account, generation, start, now_ms);
        },
        ReducerEvent::PendingStartFailed { request_id, generation, now_ms } => {
            let _ = drop_start(account, request_id, generation, now_ms);
        },
        ReducerEvent::PendingStartExpired { request_id, generation, now_ms } => {
            return expire_start(account, request_id, generation, now_ms);
        },
        ReducerEvent::ProvisionalExpired { turn, generation, terminal, now_ms } => {
            expire_provisional(account, &turn, generation, terminal, now_ms);
        },
        ReducerEvent::StartResponse {
            request_id,
            session_epoch,
            workspace_id,
            thread_id,
            now_ms,
        } => {
            answer_start(
                account,
                generation,
                request_id,
                &session_epoch,
                &workspace_id,
                thread_id,
                now_ms,
            );
        },
        _ => {},
    }
    effects
}

/// The state after an event, and the effects to run.
pub fn reduce(
    runtime: QuotaGuardRuntimeState,
    event: ReducerEvent,
    settings: &QuotaGuardSettings,
) -> (r: (QuotaGuardRuntimeState, Vec<ReducerEffect>))
    requires
        settings.rearm_after_reset_percent_left matches Some(percent) ==> percent <= 100,
    ensures
        r.0@ == reduced(runtime@, event, *settings).0,
        r.1@ == reduced(runtime@, event, *settings).1,
{
    let mut runtime = runtime;
    let mut effects: Vec<ReducerEffect> = Vec::new();
    match event {
        ReducerEvent::Enable { account_key, now_ms } => {
            runtime.lifecycle_generation = runtime.lifecycle_generation.saturating_add(1);
            let mut account = match runtime.account {
                Some(account) => account,
                None => AccountRuntime::new(account_key.clone(), now_ms),
            };
            account.account_key = account_key;
            account.phase = QuotaGuardPhase::Monitoring;
            account.updated_at = now_ms;
            runtime.account = Some(account);
            effects.push(ReducerEffect::SetProcessOpen);
        },
        ReducerEvent::FinalizeClosedEpisode { transition_id, now_ms } => {
            if let Some(mut account) = runtime.account {
                let (next_operation_id, requested) = finalize_closed_episode(
                    &mut account,
                    runtime.next_operation_id,
                    runtime.lifecycle_generation,
                    transition_id,
                    now_ms,
                );
                runtime.next_operation_id = next_operation_id;
                runtime.account = Some(account);
                effects = requested;
            }
        },
        event => {
            if let Some(mut account) = runtime.account {
                effects = step(&mut account, runtime.lifecycle_generation, event, settings);
                runtime.account = Some(account);
            }
        },
    }
    (runtime, effects)
}

} // verus!
