//! What the coordinator makes of reports, effects, timers, commands and settings, stated on what
//! they hold.

use crate::coordinator::{
    associates, commands, established, establishes, notice, observes, reads_limits, reminds,
    resolution_named, revalidation_error, runs, scheduling, settings_lead_to, starts, ActorEvent, CommandStep,
    CoordinatorView, EffectStep, ObservedStep, QuotaGuardCommand, Resolution, SettingsStep,
    TimerStep,
};
use crate::events::QuotaGuardEvent;
use crate::gate::{GateView, ProcessPolicy};
use crate::identity::spec_account_key;
use crate::json::{Json, JsonView};
use crate::model::{
    text_view, AccountView, EpisodeKey, PendingLocalStart, QuotaGuardActivityKind,
    QuotaGuardPhase, QuotaWindowKind, RuntimeView, SnapshotView, TurnKey,
};
use crate::parser::rate_limits_in;
use crate::persistence::LoadView;
use crate::reducer::{ReducerEffect, ReducerEvent};
use crate::settings::{QuotaGuardSettings, SettingsChanged};
use crate::text::decimal;
use vstd::prelude::*;

verus! {

/// What a session reports of a workspace that is bound to it is taken in as it was reported: new
/// limits with their value, the start and the end of a turn with its names, a start that was asked
/// for, in the present generation and with the threads that are known, and one that failed. The
/// coordinator itself stays as it is.
pub proof fn a_bound_report_is_taken_in_as_it_is(
    before: CoordinatorView,
    event: QuotaGuardEvent,
    guard_enabled: bool,
    now_ms: i64,
    after: CoordinatorView,
    step: ObservedStep,
)
    requires
        observes(before, event, guard_enabled, now_ms, after, step),
        ({
            let bound = |epoch: String, id: String|
                before.bindings.dom().contains(id@) && before.bindings[id@].session_epoch@
                    == epoch@;
            match event {
                QuotaGuardEvent::RateLimits { session_epoch, workspace_id, .. } => bound(
                    session_epoch,
                    workspace_id,
                ),
                QuotaGuardEvent::TurnStarted { session_epoch, workspace_id, .. } => bound(
                    session_epoch,
                    workspace_id,
                ),
                QuotaGuardEvent::TurnCompleted { session_epoch, workspace_id, .. } => bound(
                    session_epoch,
                    workspace_id,
                ),
                QuotaGuardEvent::PendingLocalStart { session_epoch, workspace_id, .. } => bound(
                    session_epoch,
                    workspace_id,
                ),
                QuotaGuardEvent::StartFailed { session_epoch, workspace_id, .. } => bound(
                    session_epoch,
                    workspace_id,
                ),
                _ => false,
            }
        }),
    ensures
        ({
            &&& after == before
            &&& event matches QuotaGuardEvent::RateLimits { value, .. } ==> step
                == ObservedStep::RateLimits { value }
            &&& event matches QuotaGuardEvent::TurnStarted {
                session_epoch,
                workspace_id,
                thread_id,
                turn_id,
            } ==> step == (ObservedStep::Apply {
                event: ReducerEvent::TurnStarted {
                    turn: TurnKey { session_epoch, workspace_id, thread_id, turn_id },
                    now_ms,
                },
            })
            &&& event matches QuotaGuardEvent::TurnCompleted {
                session_epoch,
                workspace_id,
                thread_id,
                turn_id,
                status,
                error,
            } ==> step == (ObservedStep::Apply {
                event: ReducerEvent::TurnTerminal {
                    turn: TurnKey { session_epoch, workspace_id, thread_id, turn_id },
                    status,
                    error,
                    now_ms,
                },
            })
            &&& event matches QuotaGuardEvent::PendingLocalStart {
                request_id,
                session_epoch,
                workspace_id,
                request_thread_id,
                expected_thread_id,
                request_kind,
            } ==> step == (ObservedStep::Apply {
                event: ReducerEvent::PendingStartRecorded {
                    start: PendingLocalStart {
                        request_id,
                        session_epoch,
                        workspace_id,
                        request_thread_id,
                        expected_thread_id,
                        request_kind,
                        response_thread_id: None,
                        response_received_at: None,
                        generation: before.runtime.lifecycle_generation,
                        disposition: None,
                        registered_at: now_ms,
                    },
                    now_ms,
                },
            })
            &&& event matches QuotaGuardEvent::StartFailed { request_id, .. } ==> step == (
            ObservedStep::Apply {
                event: ReducerEvent::PendingStartFailed {
                    request_id,
                    generation: before.runtime.lifecycle_generation,
                    now_ms,
                },
            })
        }),
{
}

/// The answer to a start is taken in with the thread that it names, and without one where it names
/// none in itself.
pub proof fn an_answered_start_is_taken_in_with_its_thread(
    before: CoordinatorView,
    request_id: u64,
    session_epoch: String,
    workspace_id: String,
    method: String,
    value: Json,
    guard_enabled: bool,
    now_ms: i64,
    after: CoordinatorView,
    step: ObservedStep,
    thread: Seq<char>,
)
    requires
        observes(
            before,
            QuotaGuardEvent::StartResponse {
                request_id,
                session_epoch,
                workspace_id,
                method,
                value,
            },
            guard_enabled,
            now_ms,
            after,
            step,
        ),
        before.bindings.dom().contains(workspace_id@),
        before.bindings[workspace_id@].session_epoch@ == session_epoch@,
        value@.get("threadId"@) == Some(JsonView::Text(thread)) || (value@.get("threadId"@) is None
            && value@.get("thread_id"@) == Some(JsonView::Text(thread))),
    ensures
        ({
            &&& after == before
            &&& step matches ObservedStep::Apply {
                event: ReducerEvent::StartResponse {
                    request_id: request,
                    session_epoch: epoch,
                    workspace_id: workspace,
                    thread_id,
                    now_ms: at,
                },
            } && request == request_id && epoch == session_epoch && workspace == workspace_id && at
                == now_ms && text_view(thread_id) == Some(thread)
        }),
{
    reveal_with_fuel(crate::identity::first_text, 3);
    let keys = seq!["threadId"@, "thread_id"@];
    assert(keys.drop_first() =~= seq!["thread_id"@]);
    assert(crate::identity::first_text(value@, keys) == Some(thread));
}

/// A workspace that is bound is known, with its session and home, and not admitted yet; where the
/// limiter is on, its account is established next. The other workspaces stay as they are.
pub proof fn a_bound_workspace_is_known_and_closed(
    before: CoordinatorView,
    session_epoch: String,
    workspace_id: String,
    canonical_codex_home: String,
    guard_enabled: bool,
    now_ms: i64,
    after: CoordinatorView,
    step: ObservedStep,
    other: Seq<char>,
)
    requires
        observes(
            before,
            QuotaGuardEvent::WorkspaceBound { session_epoch, workspace_id, canonical_codex_home },
            guard_enabled,
            now_ms,
            after,
            step,
        ),
    ensures
        ({
            &&& after.bindings.dom().contains(workspace_id@)
            &&& after.bindings[workspace_id@].session_epoch == session_epoch
            &&& after.bindings[workspace_id@].canonical_codex_home == canonical_codex_home
            &&& after.gate.permits.dom().contains((session_epoch@, workspace_id@))
            &&& !after.gate.permits[(session_epoch@, workspace_id@)]
            &&& after.gate.policy == before.gate.policy
            &&& after.gate.admissions == before.gate.admissions
            &&& after.runtime == before.runtime
            &&& other != workspace_id@ ==> (after.bindings.dom().contains(other)
                <==> before.bindings.dom().contains(other))
            &&& other != workspace_id@ && before.bindings.dom().contains(other) ==> after.bindings[other]
                == before.bindings[other]
            &&& guard_enabled ==> step == (ObservedStep::Bootstrap { workspace_id, reason: None })
            &&& !guard_enabled ==> step == ObservedStep::Nothing
        }),
{
}

/// A session that ends takes its permit along. Where the workspace was bound to it, the workspace
/// is no longer bound, and, unless the limiter is off, everything closes and intervention is asked
/// for. Where it was bound to another session, nothing else happens.
pub proof fn a_workspace_that_disconnects_is_let_go(
    before: CoordinatorView,
    session_epoch: String,
    workspace_id: String,
    guard_enabled: bool,
    now_ms: i64,
    after: CoordinatorView,
    step: ObservedStep,
)
    requires
        observes(
            before,
            QuotaGuardEvent::WorkspaceDisconnected { session_epoch, workspace_id },
            guard_enabled,
            now_ms,
            after,
            step,
        ),
    ensures
        ({
            let bound = before.bindings.dom().contains(workspace_id@)
                && before.bindings[workspace_id@].session_epoch@ == session_epoch@;
            let off = before.gate.policy == ProcessPolicy::DisabledOpen;
            &&& after.gate.permits == before.gate.permits.remove((session_epoch@, workspace_id@))
            &&& bound ==> after.bindings == before.bindings.remove(workspace_id@)
            &&& !bound ==> after.bindings == before.bindings
            &&& !bound || off ==> step == ObservedStep::Nothing && after.runtime == before.runtime
                && after.gate.policy == before.gate.policy
            &&& bound && !off ==> step == ObservedStep::Intervened && after.gate.policy
                == ProcessPolicy::EnabledClosed
            &&& bound && !off && before.runtime.account is Some ==> {
                let account = after.runtime.account->0;
                &&& after.runtime.account is Some
                &&& account.phase == QuotaGuardPhase::InterventionRequired
                &&& account.last_error == Some("guarded workspace disconnected"@)
                &&& account.updated_at == now_ms
                &&& account.local_turn_registry
                    == before.runtime.account->0.local_turn_registry
            }
        }),
{
}

/// When a bound session reports that its account changed, everything closes and the account is
/// established anew, for that reason.
pub proof fn a_changed_account_is_established_anew(
    before: CoordinatorView,
    session_epoch: String,
    workspace_id: String,
    reason: String,
    guard_enabled: bool,
    now_ms: i64,
    after: CoordinatorView,
    step: ObservedStep,
)
    requires
        observes(
            before,
            QuotaGuardEvent::AccountIdentityChanged { session_epoch, workspace_id, reason },
            guard_enabled,
            now_ms,
            after,
            step,
        ),
        before.bindings.dom().contains(workspace_id@),
        before.bindings[workspace_id@].session_epoch@ == session_epoch@,
    ensures
        after == (CoordinatorView {
            gate: GateView { policy: ProcessPolicy::EnabledClosed, ..before.gate },
            ..before
        }),
        step == (ObservedStep::Bootstrap { workspace_id, reason: Some(reason) }),
{
}

/// Closing and opening do what they say: closed, nothing is admitted; opened, every workspace that
/// is bound to its session and known is admitted, those that were admitted still are, and none
/// that is not known is.
pub proof fn closing_closes_and_opening_opens(
    before: CoordinatorView,
    settings: QuotaGuardSettings,
    now_ms: i64,
    after: CoordinatorView,
    step: Result<EffectStep, String>,
    workspace_id: Seq<char>,
    epoch: Seq<char>,
)
    ensures
        ({
            &&& runs(before, ReducerEffect::SetProcessClosed, settings, now_ms, after, step) ==> after == (
            CoordinatorView {
                gate: GateView { policy: ProcessPolicy::EnabledClosed, ..before.gate },
                ..before
            })
            &&& runs(before, ReducerEffect::SetProcessOpen, settings, now_ms, after, step) ==> {
                let key = (epoch, workspace_id);
                let bound = before.bindings.dom().contains(workspace_id)
                    && before.bindings[workspace_id].session_epoch@ == epoch;
                &&& after == (CoordinatorView { gate: after.gate, ..before })
                &&& after.gate.policy == ProcessPolicy::EnabledOpen
                &&& after.gate.admissions == before.gate.admissions
                &&& after.gate.permits.dom().contains(key) <==> before.gate.permits.dom().contains(key)
                &&& before.gate.permits.dom().contains(key) && bound ==> after.gate.permits[key]
                &&& before.gate.permits.dom().contains(key) && !bound ==> after.gate.permits[key]
                    == before.gate.permits[key]
            }
        }),
{
}

/// Opening while the account is monitored is told, with the agreed words, where the settings ask
/// for it, and is silent otherwise.
pub proof fn availability_is_told_where_it_is_asked_for(
    before: CoordinatorView,
    settings: QuotaGuardSettings,
    now_ms: i64,
    after: CoordinatorView,
    step: Result<EffectStep, String>,
)
    requires
        runs(before, ReducerEffect::SetProcessOpen, settings, now_ms, after, step),
    ensures
        ({
            let told = settings.notify_when_available && (
            before.runtime.account matches Some(account) && account.phase
                == QuotaGuardPhase::Monitoring);
            &&& told ==> (step matches Ok(EffectStep::NotifyAvailable { title, body }) && title@
                == "Quota guard ready"@ && body@ == "Quota limits have been verified healthy."@)
            &&& !told ==> step == Ok::<EffectStep, String>(EffectStep::Done)
        }),
{
}

/// An interrupt goes to exactly the turn, operation and attempt that it names, and is written in
/// the log; a question about a turn goes to that turn.
pub proof fn interrupts_go_to_their_turn(
    before: CoordinatorView,
    turn: TurnKey,
    generation: u64,
    operation_id: u64,
    attempt: u8,
    settings: QuotaGuardSettings,
    now_ms: i64,
    after: CoordinatorView,
    step: Result<EffectStep, String>,
)
    ensures
        ({
            &&& runs(
                before,
                ReducerEffect::Interrupt { turn, generation, operation_id, attempt },
                settings,
                now_ms,
                after,
                step,
            ) ==> {
                &&& step == Ok::<EffectStep, String>(
                    EffectStep::InterruptTurn { turn, generation, operation_id, attempt },
                )
                &&& after.gate == before.gate
                &&& before.runtime.account matches Some(account) ==> {
                    let entries = after.runtime.account->0.activity_entries;
                    &&& after.runtime.account is Some
                    &&& after.runtime.account->0 == (AccountView { activity_entries: entries, ..account })
                    &&& entries.len() > 0
                    &&& entries.len() <= 100 || entries.len() == account.activity_entries.len() + 1
                    &&& entries.last().kind == QuotaGuardActivityKind::InterruptRequested
                    &&& entries.last().timestamp == now_ms
                    &&& entries.last().operation_id == Some(operation_id)
                    &&& entries.last().workspace_id == Some(turn.workspace_id@)
                    &&& entries.last().thread_id == Some(turn.thread_id@)
                    &&& entries.last().turn_id == Some(turn.turn_id@)
                }
            }
            &&& runs(
                before,
                ReducerEffect::ReconcileThread { turn, generation, operation_id, attempt },
                settings,
                now_ms,
                after,
                step,
            ) ==> after == before && step == Ok::<EffectStep, String>(
                EffectStep::ReadThread { turn, generation, operation_id, attempt },
            )
        }),
{
}

/// Timers are set for the time that is left until their deadline, and for none where it has
/// passed; each remembers what it is for, and when it runs out exactly that comes back.
pub proof fn timers_wait_for_their_deadline(
    before: CoordinatorView,
    turn: TurnKey,
    request_id: u64,
    generation: u64,
    operation_id: u64,
    attempt: u8,
    terminal: bool,
    deadline: i64,
    settings: QuotaGuardSettings,
    now_ms: i64,
    after: CoordinatorView,
    step: Result<EffectStep, String>,
)
    requires
        now_ms >= 0,
    ensures
        ({
            let left: u64 = if deadline <= now_ms { 0 } else { (deadline - now_ms) as u64 };
            let set = |event: ActorEvent|
                after == before && step == Ok::<EffectStep, String>(
                    EffectStep::Schedule { wait_ms: left, event },
                );
            &&& runs(
                before,
                ReducerEffect::ScheduleInterruptAck {
                    turn,
                    generation,
                    operation_id,
                    attempt,
                    deadline,
                },
                settings,
                now_ms,
                after,
                step,
            ) ==> set(
                ActorEvent::InterruptDeadline {
                    turn,
                    generation,
                    operation_id,
                    attempt,
                    acknowledgement: true,
                },
            )
            &&& runs(
                before,
                ReducerEffect::ScheduleInterruptCompletion {
                    turn,
                    generation,
                    operation_id,
                    attempt,
                    deadline,
                },
                settings,
                now_ms,
                after,
                step,
            ) ==> set(
                ActorEvent::InterruptDeadline {
                    turn,
                    generation,
                    operation_id,
                    attempt,
                    acknowledgement: false,
                },
            )
            &&& runs(
                before,
                ReducerEffect::ScheduleStartExpiry { request_id, generation, deadline },
                settings,
                now_ms,
                after,
                step,
            ) ==> set(ActorEvent::StartExpiry { request_id, generation })
            &&& runs(
                before,
                ReducerEffect::ScheduleProvisionalExpiry { turn, generation, terminal, deadline },
                settings,
                now_ms,
                after,
                step,
            ) ==> set(ActorEvent::ProvisionalExpiry { turn, generation, terminal })
        }),
{
}

/// When a timer runs out, what it was set for is applied, at the present time, and the coordinator
/// stays as it is.
pub proof fn a_timer_brings_back_what_it_was_set_for(
    before: CoordinatorView,
    event: ActorEvent,
    now_ms: i64,
    after: CoordinatorView,
    step: TimerStep,
)
    requires
        reminds(before, event, now_ms, after, step),
    ensures
        ({
            &&& !(event is HealthyRevalidate) ==> after == before
            &&& event matches ActorEvent::FinalizeClosedEpisode { generation } ==> step == (
            TimerStep::Apply {
                event: ReducerEvent::FinalizeClosedEpisode { transition_id: generation, now_ms },
            })
            &&& event matches ActorEvent::InterruptDeadline {
                turn,
                generation,
                operation_id,
                attempt,
                acknowledgement,
            } ==> step == (TimerStep::Apply {
                event: ReducerEvent::InterruptDeadline {
                    turn,
                    generation,
                    operation_id,
                    attempt,
                    acknowledgement,
                    now_ms,
                },
            })
            &&& event matches ActorEvent::StartExpiry { request_id, generation } ==> step == (
            TimerStep::Apply {
                event: ReducerEvent::PendingStartExpired { request_id, generation, now_ms },
            })
            &&& event matches ActorEvent::ProvisionalExpiry { turn, generation, terminal } ==> step == (
            TimerStep::Apply {
                event: ReducerEvent::ProvisionalExpired { turn, generation, terminal, now_ms },
            })
            &&& event matches ActorEvent::HealthyRevalidate { generation, due_at } ==> {
                let due = (before.runtime.account matches Some(account) && account.phase
                    == QuotaGuardPhase::Monitoring) && before.runtime.lifecycle_generation
                    == generation && due_at <= now_ms;
                &&& due ==> step == TimerStep::Revalidate && after == (CoordinatorView {
                    healthy_due: None,
                    ..before
                })
                &&& !due ==> step == TimerStep::Nothing && after == before
            }
        }),
{
}

/// Disarming, raising and rearming change in the settings what they are for and nothing else:
/// disarming leaves the thresholds, raising never lowers one and leaves none below the use, and
/// rearming arms and sets both thresholds.
pub proof fn settings_are_saved_with_one_change(
    before: CoordinatorView,
    percent: u8,
    settings: QuotaGuardSettings,
    now_ms: i64,
    after: CoordinatorView,
    saved: QuotaGuardSettings,
)
    ensures
        ({
            let step = Ok::<EffectStep, String>(EffectStep::SaveSettings { settings: saved });
            &&& runs(before, ReducerEffect::PersistDisarmed, settings, now_ms, after, step)
                ==> after == before && saved == (QuotaGuardSettings { armed: false, ..settings })
            &&& runs(
                before,
                ReducerEffect::PersistAutoRearm { threshold_percent: percent },
                settings,
                now_ms,
                after,
                step,
            ) ==> after == before && saved == (QuotaGuardSettings {
                armed: true,
                primary_threshold_percent: percent,
                secondary_threshold_percent: percent,
                ..settings
            })
            &&& runs(
                before,
                ReducerEffect::RaiseThresholds { used_percent: percent },
                settings,
                now_ms,
                after,
                step,
            ) ==> {
                &&& after == before
                &&& saved == (QuotaGuardSettings {
                    primary_threshold_percent: saved.primary_threshold_percent,
                    secondary_threshold_percent: saved.secondary_threshold_percent,
                    ..settings
                })
                &&& saved.primary_threshold_percent >= percent
                &&& saved.primary_threshold_percent >= settings.primary_threshold_percent
                &&& saved.primary_threshold_percent == percent || saved.primary_threshold_percent
                    == settings.primary_threshold_percent
                &&& saved.secondary_threshold_percent >= percent
                &&& saved.secondary_threshold_percent >= settings.secondary_threshold_percent
                &&& saved.secondary_threshold_percent == percent
                    || saved.secondary_threshold_percent == settings.secondary_threshold_percent
            }
        }),
{
}

/// Each of these effects has its own step, and only that: settings are saved for disarming,
/// raising and rearming, and outside processes are suspended, kept suspended and resumed as asked.
pub proof fn effects_lead_to_their_steps(
    before: CoordinatorView,
    effect: ReducerEffect,
    settings: QuotaGuardSettings,
    now_ms: i64,
    after: CoordinatorView,
    step: Result<EffectStep, String>,
)
    requires
        runs(before, effect, settings, now_ms, after, step),
    ensures
        ({
            &&& effect is PersistDisarmed || effect is RaiseThresholds || effect is PersistAutoRearm ==> (
            step matches Ok(EffectStep::SaveSettings { .. }))
            &&& effect is SuspendExternalEngines ==> after == before && step == Ok::<EffectStep, String>(
                EffectStep::SuspendExternalEngines,
            )
            &&& effect is ResumeExternalEngines ==> after == before && step == Ok::<EffectStep, String>(
                EffectStep::ResumeExternalEngines,
            )
            &&& effect matches ReducerEffect::MaintainExternalEngineSuspension { prevent_new_sessions }
                ==> after == before && step == Ok::<EffectStep, String>(
                EffectStep::MaintainExternalEngineSuspension { prevent_new_sessions },
            )
            &&& effect matches ReducerEffect::FinalizeClosedEpisode { transition_id } ==> after == before
                && step == Ok::<EffectStep, String>(
                EffectStep::AwaitAdmissions { generation: transition_id },
            )
            &&& effect is ReadFullRateLimits || effect is VerifyNow ==> after == before && match before.runtime.account {
                Some(account) => if account.associated_workspace_ids.len() > 0 {
                    step == Ok::<EffectStep, String>(
                        EffectStep::ReadRateLimits {
                            workspace_id: account.associated_workspace_ids[0],
                        },
                    )
                } else {
                    step is Err
                },
                None => step is Err,
            }
        }),
{
}

/// A notice names the window and says how much of it is left, how much is to be left, and when it
/// is reset; of a hard limit that nothing is left.
pub proof fn a_notice_says_how_much_is_left(
    before: CoordinatorView,
    account_key: String,
    window: QuotaWindowKind,
    threshold_percent: u8,
    settings: QuotaGuardSettings,
    now_ms: i64,
    after: CoordinatorView,
    body: String,
)
    requires
        runs(
            before,
            ReducerEffect::Notify {
                episode: EpisodeKey::Threshold {
                    account_key,
                    window,
                    threshold_percent,
                    resets_at: None,
                },
            },
            settings,
            now_ms,
            after,
            Ok(EffectStep::Notify { body }),
        ),
        threshold_percent <= 100,
        window == QuotaWindowKind::Primary || window == QuotaWindowKind::Secondary,
        before.runtime.account is Some,
        before.runtime.account->0.snapshot is Some,
    ensures
        ({
            let snapshot = before.runtime.account->0.snapshot->0;
            let known = if window == QuotaWindowKind::Primary {
                snapshot.primary
            } else {
                snapshot.secondary
            };
            let name = if window == QuotaWindowKind::Primary {
                "primary window"@
            } else {
                "secondary window"@
            };
            let floor = decimal((100 - threshold_percent) as nat);
            let tail = "% left (floor "@;
            &&& after == before
            &&& known is Some && known->0.used_percent <= 100 ==> body@ == name + ": "@ + decimal(
                (100 - known->0.used_percent) as nat,
            ) + tail + floor + "%). Resets "@ + "when the quota service reports a reset"@ + "."@
            &&& known is None ==> body@ == name + ": "@ + floor + tail + floor + "%). Resets "@
                + "when the quota service reports a reset"@ + "."@
        }),
{
}

/// New limits are read with the ones that are known as the previous ones, and applied as the
/// snapshot that they give, with the time and the kind of the reading; where they cannot be read,
/// the reason is given and nothing is applied.
pub proof fn limits_are_read_over_the_known_ones(
    runtime: RuntimeView,
    value: JsonView,
    full_read: bool,
    verification: bool,
    now_ms: i64,
    r: Result<ReducerEvent, String>,
)
    requires
        reads_limits(runtime, value, full_read, verification, now_ms, r),
    ensures
        ({
            let known: Option<SnapshotView> = if runtime.account is Some
                && runtime.account->0.snapshot is Some {
                Some(runtime.account->0.snapshot->0@)
            } else {
                None
            };
            let read = rate_limits_in(value, known, now_ms);
            &&& read is Ok <==> r is Ok
            &&& r matches Ok(event) ==> {
                &&& event matches ReducerEvent::Snapshot {
                    snapshot,
                    full_read: full,
                    verification: verified,
                    now_ms: at,
                }
                &&& snapshot@ == read->Ok_0
                &&& full == full_read
                &&& verified == verification
                &&& at == now_ms
            }
            &&& r matches Err(message) ==> message@ == read->Err_0
        }),
{
}

/// The account of a workspace is the one of its owner in its home. Where no account is known, or
/// the known one is disabled, it is enabled under that name; where it is known and on, it stays;
/// where another one is known, it is refused. Without an owner, or for a workspace that is not
/// bound, nothing is established.
pub proof fn the_owner_decides_the_account(
    before: CoordinatorView,
    workspace_id: Seq<char>,
    identity: Option<Seq<char>>,
)
    ensures
        ({
            let r = establishes(before, workspace_id, identity);
            let bound = before.bindings.dom().contains(workspace_id);
            let key = spec_account_key(
                before.bindings[workspace_id].canonical_codex_home@,
                identity->0,
            );
            let account = before.runtime.account;
            &&& !bound ==> r == Err::<Option<Seq<char>>, Seq<char>>(
                "workspace binding missing for quota bootstrap"@,
            )
            &&& bound && identity is None ==> r == Err::<Option<Seq<char>>, Seq<char>>(
                "account/read returned no strict identity"@,
            )
            &&& bound && identity is Some && (account is None || (account->0.account_key@ == key
                && account->0.phase == QuotaGuardPhase::Disabled)) ==> r == Ok::<
                Option<Seq<char>>,
                Seq<char>,
            >(Some(key))
            &&& bound && identity is Some && account is Some && account->0.account_key@ == key
                && account->0.phase != QuotaGuardPhase::Disabled ==> r == Ok::<
                Option<Seq<char>>,
                Seq<char>,
            >(None)
            &&& bound && identity is Some && account is Some && account->0.account_key@ != key
                ==> r == Err::<Option<Seq<char>>, Seq<char>>(
                "strict account identity changed; disable and re-enable quota guard"@,
            )
        }),
{
}

/// A check of the account finds nothing wrong exactly where an account is known, the workspace is
/// bound, the owner is read, and the account is the owner's in the workspace's home.
pub proof fn a_check_passes_for_the_same_owner_alone(
    before: CoordinatorView,
    workspace_id: Seq<char>,
    identity: Option<Seq<char>>,
)
    ensures
        before.check_error(workspace_id, identity) is None <==> {
            &&& before.runtime.account is Some
            &&& before.bindings.dom().contains(workspace_id)
            &&& identity is Some
            &&& before.runtime.account->0.account_key@ == spec_account_key(
                before.bindings[workspace_id].canonical_codex_home@,
                identity->0,
            )
        },
{
}

/// A check goes through the first workspace of the account, where it is bound, and through no
/// other.
pub proof fn a_check_goes_through_the_first_workspace(before: CoordinatorView)
    ensures
        ({
            let r = before.revalidates_through();
            let known = before.runtime.account is Some
                && before.runtime.account->0.associated_workspace_ids.len() > 0;
            let first = before.runtime.account->0.associated_workspace_ids[0];
            &&& known && before.bindings.dom().contains(first@) ==> r == Ok::<String, Seq<char>>(
                first,
            )
            &&& !known || !before.bindings.dom().contains(first@) ==> r is Err
        }),
{
}

/// Once the account of a workspace is established, the workspace is admitted in its session, where
/// the process is open and the workspace known; no other permit changes. While the account is
/// monitored and no check is due, the next one is due in five minutes.
pub proof fn an_established_workspace_is_admitted(
    before: CoordinatorView,
    session_epoch: Seq<char>,
    workspace_id: Seq<char>,
    now_ms: i64,
)
    requires
        now_ms <= i64::MAX - 300_000,
    ensures
        ({
            let (after, due) = established(before, session_epoch, workspace_id, now_ms);
            let key = (session_epoch, workspace_id);
            let opens = before.gate.policy == ProcessPolicy::EnabledOpen
                && before.gate.permits.dom().contains(key);
            let checks = before.healthy_due is None && (
            before.runtime.account matches Some(account) && account.phase
                == QuotaGuardPhase::Monitoring);
            &&& opens ==> after.gate == (GateView {
                permits: before.gate.permits.insert(key, true),
                ..before.gate
            })
            &&& !opens ==> after.gate == before.gate
            &&& checks ==> due == Some((now_ms + 300_000) as i64) && after.healthy_due == due
            &&& !checks ==> due is None && after.healthy_due == before.healthy_due
            &&& after == (CoordinatorView {
                gate: after.gate,
                healthy_due: after.healthy_due,
                ..before
            })
            &&& scheduling(before, now_ms).1 == due
            &&& scheduling(before, now_ms).0 == (CoordinatorView {
                healthy_due: after.healthy_due,
                ..before
            })
        }),
{
}

spec fn others(workspace_id: Seq<char>) -> spec_fn(String) -> bool {
    |id: String| id@ != workspace_id
}

/// The workspace that an account was established through comes first among the account's
/// workspaces; the others follow in their order, and it is not named again.
pub proof fn the_latest_workspace_comes_first(
    before: RuntimeView,
    workspace_id: Seq<char>,
    now_ms: i64,
    after: RuntimeView,
    i: int,
)
    requires
        associates(before, workspace_id, now_ms, after),
        before.account is Some,
        0 <= i < before.account->0.associated_workspace_ids.len(),
    ensures
        ({
            let known = before.account->0.associated_workspace_ids;
            let ids = after.account->0.associated_workspace_ids;
            &&& after.account == Some(
                AccountView {
                    associated_workspace_ids: ids,
                    updated_at: now_ms,
                    ..before.account->0
                },
            )
            &&& after == (RuntimeView { account: after.account, ..before })
            &&& ids.len() > 0
            &&& ids[0]@ == workspace_id
            &&& forall|k: int| 1 <= k < ids.len() ==> (#[trigger] ids[k])@ != workspace_id
            &&& known[i]@ != workspace_id ==> ids.contains(known[i])
        }),
{
    let known = before.account->0.associated_workspace_ids;
    let keep = others(workspace_id);
    crate::search::lemma_filtered(known, keep);
    let kept = known.filter(keep);
    let ids = after.account->0.associated_workspace_ids;
    assert(exists|id: String| id@ == workspace_id && #[trigger] (seq![id] + kept) == ids);
    let id = choose|id: String| id@ == workspace_id && #[trigger] (seq![id] + kept) == ids;
    assert(ids == seq![id] + kept);
    assert forall|k: int| 1 <= k < ids.len() implies (#[trigger] ids[k])@ != workspace_id by {
        assert(ids[k] == kept[k - 1]);
        assert(kept.contains(kept[k - 1]));
    }
    assert(known.contains(known[i]));
    if known[i]@ != workspace_id {
        assert(kept.contains(known[i]));
        let k = choose|k: int| 0 <= k < kept.len() && kept[k] == known[i];
        assert(ids[k + 1] == known[i]);
    }
}

/// Turning the limiter off disables it; turning it on closes the process and establishes the
/// account through a workspace that is bound, and says so where none is; any other change opens
/// the process while the account is monitored and closes it otherwise.
pub proof fn settings_turn_the_limiter_on_and_off(
    before: CoordinatorView,
    change: SettingsChanged,
    now_ms: i64,
    after: CoordinatorView,
    step: SettingsStep,
    any: Seq<char>,
)
    requires
        settings_lead_to(before, change, now_ms, after, step),
    ensures
        ({
            let monitored = before.runtime.account matches Some(account) && account.phase
                == QuotaGuardPhase::Monitoring;
            &&& after == (CoordinatorView { gate: after.gate, ..before })
            &&& !change.updated.enabled ==> after == before && step == (SettingsStep::Disable {
                event: ReducerEvent::Disable { now_ms },
            })
            &&& change.updated.enabled && !change.previous.enabled ==> {
                &&& after.gate == (GateView { policy: ProcessPolicy::EnabledClosed, ..before.gate })
                &&& step is Enable
                &&& step->Enable_workspace_id matches Ok(id) ==> before.bindings.dom().contains(id@)
                &&& before.bindings.dom().contains(any) ==> step->Enable_workspace_id is Ok
                &&& step->Enable_workspace_id matches Err(message) ==> message@
                    == "quota guard requires a connected local workspace before it can be enabled"@
            }
            &&& change.updated.enabled && change.previous.enabled ==> {
                &&& step == SettingsStep::Synchronized
                &&& monitored ==> after.gate.policy == ProcessPolicy::EnabledOpen
                &&& !monitored ==> after.gate == (GateView {
                    policy: ProcessPolicy::EnabledClosed,
                    ..before.gate
                })
            }
        }),
{
}

/// A command does what it is named for: the response is applied at once; the limits are verified
/// through the first workspace of the account, with everything closed first where it is a retry;
/// the other commands change nothing.
pub proof fn commands_do_what_they_are_named_for(
    before: CoordinatorView,
    command: QuotaGuardCommand,
    now_ms: i64,
    after: CoordinatorView,
    r: Result<CommandStep, String>,
)
    requires
        commands(before, command, now_ms, after, r),
    ensures
        ({
            let known = before.runtime.account is Some
                && before.runtime.account->0.associated_workspace_ids.len() > 0;
            let verifies = command == QuotaGuardCommand::VerifyNow || command
                == QuotaGuardCommand::RetryClosed;
            &&& command == QuotaGuardCommand::RetryClosed ==> after == (CoordinatorView {
                gate: GateView { policy: ProcessPolicy::EnabledClosed, ..before.gate },
                ..before
            })
            &&& command != QuotaGuardCommand::RetryClosed ==> after == before
            &&& command == QuotaGuardCommand::ApplyActionNow ==> r == Ok::<CommandStep, String>(
                CommandStep::Apply { event: ReducerEvent::ApplyActionNow { now_ms } },
            )
            &&& command == QuotaGuardCommand::KeepWaiting || command
                == QuotaGuardCommand::InterruptNow ==> r == Ok::<CommandStep, String>(
                CommandStep::Show,
            )
            &&& verifies && known ==> r == Ok::<CommandStep, String>(
                CommandStep::Verify {
                    workspace_id: before.runtime.account->0.associated_workspace_ids[0],
                },
            )
            &&& verifies && !known ==> (r matches Err(message) && message@
                == "quota guard has no associated workspace for verification"@)
        }),
{
}

/// An intervention is resolved by turning the limiter off or by trying again, and by nothing else.
pub proof fn interventions_are_resolved_in_two_ways(name: Seq<char>)
    ensures
        name == "disableGuard"@ ==> resolution_named(name) == Some(Resolution::DisableGuard),
        name == "retryClosed"@ ==> resolution_named(name) == Some(Resolution::RetryClosed),
        name != "disableGuard"@ && name != "retryClosed"@ ==> resolution_named(name) is None,
{
    reveal_strlit("disableGuard");
    reveal_strlit("retryClosed");
    assert("disableGuard"@.len() != "retryClosed"@.len());
}

/// A limiter that starts on takes up what was kept of a monitored, tripped or waiting account,
/// closed, and connects the account's first workspace. One that starts off is open, knows nothing
/// and connects none.
pub proof fn a_start_takes_up_what_was_kept(
    before: CoordinatorView,
    enabled: bool,
    state: RuntimeView,
    now_ms: i64,
    after: CoordinatorView,
    connect: Option<String>,
)
    requires
        starts(before, enabled, LoadView::Valid(state), now_ms, after, connect),
        state.account is Some,
        state.account->0.phase != QuotaGuardPhase::Disabled,
    ensures
        enabled ==> {
            &&& after.runtime == state
            &&& after.gate == (GateView { policy: ProcessPolicy::EnabledClosed, ..before.gate })
            &&& state.account->0.associated_workspace_ids.len() > 0 ==> connect == Some(
                state.account->0.associated_workspace_ids[0],
            )
            &&& state.account->0.associated_workspace_ids.len() == 0 ==> connect is None
        },
        !enabled ==> {
            &&& after.runtime.account is None
            &&& after.gate == (GateView { policy: ProcessPolicy::DisabledOpen, ..before.gate })
            &&& connect is None
        },
        after == (CoordinatorView { runtime: after.runtime, gate: after.gate, ..before }),
{
}

/// A failure closes everything, and the account, where there is one, waits for intervention and
/// says why; its turns, its limits and what it has suspended stay.
pub proof fn a_failure_keeps_what_is_known(before: CoordinatorView, message: Seq<char>, now_ms: i64)
    ensures
        ({
            let after = before.failed(message, now_ms);
            &&& after.gate == (GateView { policy: ProcessPolicy::EnabledClosed, ..before.gate })
            &&& after.bindings == before.bindings
            &&& before.runtime.account is None ==> after.runtime == before.runtime
            &&& before.runtime.account is Some ==> after.runtime == (RuntimeView {
                account: Some(
                    AccountView {
                        phase: QuotaGuardPhase::InterventionRequired,
                        last_error: Some(message),
                        updated_at: now_ms,
                        ..before.runtime.account->0
                    },
                ),
                ..before.runtime
            })
        }),
{
}

/// Taking in an event closes the process exactly where the event's effects say so, before anything
/// else is done, and never opens it.
pub proof fn an_event_closes_where_its_effects_say_so(
    before: CoordinatorView,
    event: ReducerEvent,
    settings: QuotaGuardSettings,
    i: int,
)
    ensures
        ({
            let (runtime, effects) = crate::reducer::reduced(before.runtime, event, settings);
            let after = before.applied(event, settings);
            &&& after == (CoordinatorView { runtime, gate: after.gate, ..before })
            &&& 0 <= i < effects.len() && effects[i] == ReducerEffect::SetProcessClosed
                ==> after.gate == (GateView {
                policy: ProcessPolicy::EnabledClosed,
                ..before.gate
            })
            &&& (forall|k: int|
                0 <= k < effects.len() ==> #[trigger] effects[k] != ReducerEffect::SetProcessClosed)
                ==> after.gate == before.gate
        }),
{
    let effects = crate::reducer::reduced(before.runtime, event, settings).1;
    if 0 <= i < effects.len() && effects[i] == ReducerEffect::SetProcessClosed {
        assert(effects[i] is SetProcessClosed);
    }
    if forall|k: int|
        0 <= k < effects.len() ==> #[trigger] effects[k] != ReducerEffect::SetProcessClosed {
        assert forall|k: int| 0 <= k < effects.len() implies !(
        #[trigger] effects[k] is SetProcessClosed) by {}
    }
}

/// A check of the owner that fails is told with its occasion and the reason.
pub proof fn a_failed_check_is_told_with_its_occasion(reason: Seq<char>, error: Seq<char>)
    ensures
        revalidation_error(reason, error) == "identity revalidation ("@ + reason + ") failed: "@
            + error,
{
}

} // verus!
