//! What holds of everything that the coordinator does.

use crate::coordinator::{
    all_open, closes, establishes, observes, runs, CoordinatorView, EffectStep, ObservedStep,
    IDENTITY_CHANGED,
};
use crate::events::QuotaGuardEvent;
use crate::gate::{GateView, ProcessPolicy};
use crate::identity::spec_account_key;
use crate::model::QuotaGuardPhase;
use crate::public_state::{bound_epoch, Binding};
use crate::reducer::{reduced, ReducerEffect, ReducerEvent};
use crate::reducer_laws::closing_comes_first;
use crate::settings::QuotaGuardSettings;
use vstd::prelude::*;

verus! {

/// An account that comes to be tripped, or to ask for intervention, admits nothing from then
/// on: the process gate is closed before the state is written.
pub proof fn enforcement_is_closed_before_it_is_written(
    before: CoordinatorView,
    event: ReducerEvent,
    settings: QuotaGuardSettings,
    epoch: Option<Seq<char>>,
    workspace_id: Seq<char>,
)
    requires
        before.runtime.account is Some,
        ({
            let phase = before.applied(event, settings).runtime.account->0.phase;
            &&& phase != before.runtime.account->0.phase
            &&& phase == QuotaGuardPhase::Tripped || phase == QuotaGuardPhase::InterventionRequired
        }),
    ensures
        !before.applied(event, settings).gate.status(epoch, workspace_id).open,
{
    closing_comes_first(before.runtime, event, settings, -1);
    let effects = reduced(before.runtime, event, settings).1;
    assert(effects[0] is SetProcessClosed);
    assert(closes(effects));
}

/// Taking in an event never opens the process gate: only running an effect can.
pub proof fn taking_in_an_event_never_opens(
    before: CoordinatorView,
    event: ReducerEvent,
    settings: QuotaGuardSettings,
    epoch: Option<Seq<char>>,
    workspace_id: Seq<char>,
)
    requires
        !before.gate.status(epoch, workspace_id).open,
    ensures
        !before.applied(event, settings).gate.status(epoch, workspace_id).open,
{
}

/// Of all effects, only the one that opens the process can lead to an admission that was
/// refused before.
pub proof fn only_opening_opens(
    before: CoordinatorView,
    effect: ReducerEffect,
    settings: QuotaGuardSettings,
    now_ms: i64,
    after: CoordinatorView,
    step: Result<EffectStep, String>,
    epoch: Option<Seq<char>>,
    workspace_id: Seq<char>,
)
    requires
        runs(before, effect, settings, now_ms, after, step),
        !before.gate.status(epoch, workspace_id).open,
        !(effect is SetProcessOpen),
    ensures
        !after.gate.status(epoch, workspace_id).open,
{
}

/// That quota is available again is told when the process is opened for an account that is
/// monitored, where the settings ask for it, and never otherwise.
pub proof fn availability_is_told_on_opening_alone(
    before: CoordinatorView,
    effect: ReducerEffect,
    settings: QuotaGuardSettings,
    now_ms: i64,
    after: CoordinatorView,
    step: Result<EffectStep, String>,
)
    requires
        runs(before, effect, settings, now_ms, after, step),
    ensures
        step matches Ok(EffectStep::NotifyAvailable { .. }) <==> effect is SetProcessOpen
            && before.monitors() && settings.notify_when_available,
{
}

/// Opening the process admits a workspace in a session if and only if the process gate knows them,
/// and they are bound or were admitted before.
pub proof fn opening_admits_what_is_bound_and_known(
    gate: GateView,
    bindings: Map<Seq<char>, Binding>,
    epoch: Seq<char>,
    workspace_id: Seq<char>,
)
    ensures
        all_open(gate, bindings).status(Some(epoch), workspace_id).open <==> (
        gate.permits.dom().contains((epoch, workspace_id)) && (bound_epoch(bindings, workspace_id)
            == Some(epoch) || gate.permits[(epoch, workspace_id)])),
{
}

/// A report of a session that the workspace is not bound to changes nothing and leads to
/// nothing, unless it binds or unbinds.
pub proof fn reports_of_other_sessions_are_ignored(
    before: CoordinatorView,
    event: QuotaGuardEvent,
    guard_enabled: bool,
    now_ms: i64,
    after: CoordinatorView,
    step: ObservedStep,
    session_epoch: Seq<char>,
    workspace_id: Seq<char>,
)
    requires
        observes(before, event, guard_enabled, now_ms, after, step),
        !(event is WorkspaceBound),
        !(event is WorkspaceDisconnected),
        reported_by(event) == (session_epoch, workspace_id),
        !before.is_bound(session_epoch, workspace_id),
    ensures
        after == before,
        step == ObservedStep::Nothing,
{
}

/// The session and the workspace that a report comes from.
pub open spec fn reported_by(event: QuotaGuardEvent) -> (Seq<char>, Seq<char>) {
    match event {
        QuotaGuardEvent::WorkspaceBound { session_epoch, workspace_id, .. } => (
            session_epoch@,
            workspace_id@,
        ),
        QuotaGuardEvent::WorkspaceDisconnected { session_epoch, workspace_id } => (
            session_epoch@,
            workspace_id@,
        ),
        QuotaGuardEvent::RateLimits { session_epoch, workspace_id, .. } => (
            session_epoch@,
            workspace_id@,
        ),
        QuotaGuardEvent::TurnStarted { session_epoch, workspace_id, .. } => (
            session_epoch@,
            workspace_id@,
        ),
        QuotaGuardEvent::TurnCompleted { session_epoch, workspace_id, .. } => (
            session_epoch@,
            workspace_id@,
        ),
        QuotaGuardEvent::AccountIdentityChanged { session_epoch, workspace_id, .. } => (
            session_epoch@,
            workspace_id@,
        ),
        QuotaGuardEvent::PendingLocalStart { session_epoch, workspace_id, .. } => (
            session_epoch@,
            workspace_id@,
        ),
        QuotaGuardEvent::StartResponse { session_epoch, workspace_id, .. } => (
            session_epoch@,
            workspace_id@,
        ),
        QuotaGuardEvent::StartFailed { session_epoch, workspace_id, .. } => (
            session_epoch@,
            workspace_id@,
        ),
    }
}

/// A report never opens the process gate for a workspace that it does not admit.
pub proof fn reports_never_open(
    before: CoordinatorView,
    event: QuotaGuardEvent,
    guard_enabled: bool,
    now_ms: i64,
    after: CoordinatorView,
    step: ObservedStep,
    epoch: Option<Seq<char>>,
    workspace_id: Seq<char>,
)
    requires
        observes(before, event, guard_enabled, now_ms, after, step),
        !before.gate.status(epoch, workspace_id).open,
    ensures
        !after.gate.status(epoch, workspace_id).open,
{
}

/// Where a workspace of a guarded account is disconnected, nothing is admitted any more, and
/// intervention is asked for.
pub proof fn a_guarded_disconnect_fails_closed(
    before: CoordinatorView,
    session_epoch: String,
    workspace_id: String,
    guard_enabled: bool,
    now_ms: i64,
    after: CoordinatorView,
    step: ObservedStep,
    epoch: Option<Seq<char>>,
    other: Seq<char>,
)
    requires
        observes(
            before,
            QuotaGuardEvent::WorkspaceDisconnected { session_epoch, workspace_id },
            guard_enabled,
            now_ms,
            after,
            step,
        ),
        before.is_bound(session_epoch@, workspace_id@),
        before.gate.policy != ProcessPolicy::DisabledOpen,
    ensures
        !after.gate.status(epoch, other).open,
        after.runtime.account matches Some(account) ==> account.phase
            == QuotaGuardPhase::InterventionRequired,
{
}

/// A failure admits nothing, and asks for intervention where there is an account.
pub proof fn failing_closes(
    before: CoordinatorView,
    message: Seq<char>,
    now_ms: i64,
    epoch: Option<Seq<char>>,
    workspace_id: Seq<char>,
)
    ensures
        !before.failed(message, now_ms).gate.status(epoch, workspace_id).open,
        before.runtime.account is Some ==> before.failed(
            message,
            now_ms,
        ).runtime.account->0.phase == QuotaGuardPhase::InterventionRequired,
{
}

/// An account is never taken in the place of another, guarded or not.
pub proof fn another_account_is_refused(
    before: CoordinatorView,
    workspace_id: Seq<char>,
    identity: Seq<char>,
)
    requires
        before.bindings.dom().contains(workspace_id),
        before.runtime.account is Some,
        before.runtime.account->0.account_key@ != spec_account_key(
            before.bindings[workspace_id].canonical_codex_home@,
            identity,
        ),
    ensures
        establishes(before, workspace_id, Some(identity)) == Err::<Option<Seq<char>>, Seq<char>>(
            IDENTITY_CHANGED@,
        ),
{
}

} // verus!
