//! The coordinator: it holds the limiter's state, the process gate and the bound workspaces, and
//! decides what each event leads to. What has to be done outside is handed back as a step.

use crate::collections::{text_views, KeyedList, TextSet};
use crate::events::QuotaGuardEvent;
use crate::gate::{GateView, ProcessGate, ProcessPolicy};
use crate::identity::{
    account_key, active_turn, active_turn_id, answered_thread, response_thread_id, spec_account_key,
};
use crate::json::{Json, JsonView};
use crate::model::{
    snapshot_view, text_view, AccountView, ActivityView, EpisodeKey, PendingLocalStart,
    QuotaGuardActivityEntry, QuotaGuardActivityKind, QuotaGuardPhase, QuotaGuardRuntimeState,
    QuotaWindowKind, RuntimeView, TurnKey,
};
use crate::notifications::{
    breach_body, quota_guard_breach_body, AVAILABLE_BODY, AVAILABLE_TITLE,
};
use crate::parser::{parse_rate_limits, rate_limits_in};
use crate::persistence::{LoadRuntime, LoadView};
use crate::public_state::{
    bound_epoch, public_state_with_bindings, shown_state, Binding, QuotaGuardPublicState,
};
use crate::recovery::{recover, recovers, RecoveryView};
use crate::reducer::{reduce, reduced, use_of, ReducerEffect, ReducerEvent};
use crate::settings::{QuotaGuardSettings, SettingsChanged};
use crate::text::{same_text, signed_decimal, signed_decimal_text};
use vstd::prelude::*;
use vstd::string::*;

verus! {

/// How many events may wait for the coordinator.
pub const EVENT_CHANNEL_CAPACITY: usize = 256;

/// How long an account that is monitored stays unchecked, in milliseconds.
pub const REVALIDATION_MS: i64 = 300_000;

/// The coordinator.
pub struct Coordinator {
    pub runtime: QuotaGuardRuntimeState,
    pub gate: ProcessGate,
    pub configured_workspaces: TextSet,
    pub bindings: KeyedList<Binding>,
    /// When the next check of a monitored account is due.
    pub healthy_due: Option<i64>,
    /// Whether an event was lost.
    pub overflowed: bool,
}

/// What the coordinator holds.
#[verifier::ext_equal]
pub struct CoordinatorView {
    pub runtime: RuntimeView,
    pub gate: GateView,
    pub configured_workspaces: Seq<Seq<char>>,
    pub bindings: Map<Seq<char>, Binding>,
    pub healthy_due: Option<i64>,
    pub overflowed: bool,
}

impl View for Coordinator {
    type V = CoordinatorView;

    open spec fn view(&self) -> CoordinatorView {
        CoordinatorView {
            runtime: self.runtime@,
            gate: self.gate@,
            configured_workspaces: self.configured_workspaces@,
            bindings: self.bindings@,
            healthy_due: self.healthy_due,
            overflowed: self.overflowed,
        }
    }
}

/// The process gate, closed.
pub open spec fn closed(gate: GateView) -> GateView {
    GateView { policy: ProcessPolicy::EnabledClosed, ..gate }
}

/// The state that asks for intervention.
pub open spec fn intervening(runtime: RuntimeView, message: Seq<char>, now_ms: i64) -> RuntimeView {
    RuntimeView {
        account: match runtime.account {
            Some(account) => Some(
                AccountView {
                    phase: QuotaGuardPhase::InterventionRequired,
                    last_error: Some(message),
                    updated_at: now_ms,
                    ..account
                },
            ),
            None => None,
        },
        ..runtime
    }
}

/// Whether the effects close the process.
pub open spec fn closes(effects: Seq<ReducerEffect>) -> bool {
    exists|i: int| 0 <= i < effects.len() && #[trigger] effects[i] is SetProcessClosed
}

impl CoordinatorView {
    /// The coordinator that has failed closed.
    pub open spec fn failed(self, message: Seq<char>, now_ms: i64) -> CoordinatorView {
        CoordinatorView {
            gate: closed(self.gate),
            runtime: intervening(self.runtime, message, now_ms),
            ..self
        }
    }

    /// The coordinator after an event, its effects not yet run. Where they close the process,
    /// it is closed already.
    pub open spec fn applied(self, event: ReducerEvent, settings: QuotaGuardSettings) -> CoordinatorView {
        let (runtime, effects) = reduced(self.runtime, event, settings);
        CoordinatorView {
            runtime,
            gate: if closes(effects) { closed(self.gate) } else { self.gate },
            ..self
        }
    }

    /// Whether the workspace is bound to the session.
    pub open spec fn is_bound(self, session_epoch: Seq<char>, workspace_id: Seq<char>) -> bool {
        bound_epoch(self.bindings, workspace_id) == Some(session_epoch)
    }

    /// The workspace that was verified last.
    pub open spec fn first_associated(self) -> Option<String> {
        match self.runtime.account {
            Some(account) => if account.associated_workspace_ids.len() > 0 {
                Some(account.associated_workspace_ids[0])
            } else {
                None
            },
            None => None,
        }
    }

    /// Whether the account is monitored.
    pub open spec fn monitors(self) -> bool {
        self.runtime.account matches Some(account) && account.phase == QuotaGuardPhase::Monitoring
    }
}

/// Whether a start leads to connecting `connect` and leaves the coordinator as `after`: with the
/// state and the policy that are decided on.
pub open spec fn starts(
    before: CoordinatorView,
    enabled: bool,
    loaded: LoadView,
    now_ms: i64,
    after: CoordinatorView,
    connect: Option<String>,
) -> bool {
    &&& exists|decision: RecoveryView| #[trigger]
        recovers(enabled, loaded, now_ms, decision) && after == (CoordinatorView {
            runtime: decision.state,
            gate: GateView { policy: decision.policy, ..before.gate },
            ..before
        })
    &&& connect == if enabled {
        after.first_associated()
    } else {
        None
    }
}

/// Closes the process gate where the effects close the process. This comes before the state is
/// written: nothing is admitted while it is.
pub fn close_enforcement_before_persistence(gate: &mut ProcessGate, effects: &Vec<ReducerEffect>)
    ensures
        final(gate)@ == if closes(effects@) {
            closed(old(gate)@)
        } else {
            old(gate)@
        },
{
    let mut i: usize = 0;
    while i < effects.len()
        invariant
            i <= effects@.len(),
            gate@ == old(gate)@,
            forall|k: int| 0 <= k < i ==> !(#[trigger] effects@[k] is SetProcessClosed),
        decreases effects@.len() - i,
    {
        if let ReducerEffect::SetProcessClosed = &effects[i] {
            gate.close();
            assert(effects@[i as int] is SetProcessClosed);
            return ;
        }
        i += 1;
    }
}

impl Default for Coordinator {
    fn default() -> (r: Coordinator)
        ensures
            r@ == (CoordinatorView {
                runtime: RuntimeView::initial(),
                gate: GateView {
                    policy: ProcessPolicy::DisabledOpen,
                    permits: Map::empty(),
                    admissions: 0,
                },
                configured_workspaces: Seq::empty(),
                bindings: Map::empty(),
                healthy_due: None,
                overflowed: false,
            }),
    {
        Coordinator {
            runtime: QuotaGuardRuntimeState::default(),
            gate: ProcessGate::default(),
            configured_workspaces: TextSet::new(),
            bindings: KeyedList::new(),
            healthy_due: None,
            overflowed: false,
        }
    }
}

impl Coordinator {
    /// Closes the process and asks for intervention.
    pub fn mark_intervention(&mut self, message: &str, now_ms: i64)
        ensures
            final(self)@ == old(self)@.failed(message@, now_ms),
    {
        self.gate.set_policy(ProcessPolicy::EnabledClosed);
        if let Some(mut account) = self.runtime.account.take() {
            account.phase = QuotaGuardPhase::InterventionRequired;
            account.last_error = Some(message.to_owned());
            account.updated_at = now_ms;
            self.runtime.account = Some(account);
        }
    }

    /// Closes the process because the limiter cannot do its work.
    pub fn fail_closed(&mut self, message: &str, now_ms: i64)
        ensures
            final(self)@ == old(self)@.failed(message@, now_ms),
    {
        self.mark_intervention(message, now_ms);
    }

    /// Closes the process because an event could not be handed over. What was lost is dealt
    /// with by `overflow`.
    pub fn event_lost(&mut self)
        ensures
            final(self)@ == (CoordinatorView {
                gate: closed(old(self)@.gate),
                overflowed: true,
                ..old(self)@
            }),
    {
        self.gate.close();
        self.overflowed = true;
    }

    /// Deals with lost events: intervention is asked for, and the account is not well
    /// monitored. Says whether there were any.
    pub fn overflow(&mut self, now_ms: i64) -> (lost: bool)
        ensures
            lost == old(self)@.overflowed,
            final(self)@ == if old(self)@.overflowed {
                let failed = old(self)@.failed("event channel overflow"@, now_ms);
                CoordinatorView {
                    overflowed: false,
                    runtime: RuntimeView {
                        account: match failed.runtime.account {
                            Some(account) => Some(AccountView { monitor_healthy: false, ..account }),
                            None => None,
                        },
                        ..failed.runtime
                    },
                    ..failed
                }
            } else {
                old(self)@
            },
    {
        if !self.overflowed {
            return false;
        }
        self.overflowed = false;
        self.mark_intervention("event channel overflow", now_ms);
        if let Some(mut account) = self.runtime.account.take() {
            account.monitor_healthy = false;
            self.runtime.account = Some(account);
        }
        true
    }

    /// Takes up what was kept. Where the limiter is on, gives the workspace to connect first.
    pub fn start(&mut self, enabled: bool, loaded: LoadRuntime, now_ms: i64) -> (connect: Option<
        String,
    >)
        ensures
            starts(old(self)@, enabled, loaded@, now_ms, final(self)@, connect),
    {
        let decision = recover(enabled, loaded, now_ms);
        let ghost decided = decision@;
        self.gate.set_policy(decision.policy);
        self.runtime = decision.state;
        assert(recovers(enabled, loaded@, now_ms, decided));
        if enabled {
            self.associated_workspace()
        } else {
            None
        }
    }

    /// The workspace that was verified last.
    pub fn associated_workspace(&self) -> (r: Option<String>)
        ensures
            r == self@.first_associated(),
    {
        match &self.runtime.account {
            Some(account) => if account.associated_workspace_ids.len() > 0 {
                Some(account.associated_workspace_ids[0].clone())
            } else {
                None
            },
            None => None,
        }
    }

    /// Takes an event in; gives the effects to run once the state is written.
    pub fn apply(&mut self, event: ReducerEvent, settings: &QuotaGuardSettings) -> (effects: Vec<
        ReducerEffect,
    >)
        requires
            settings.rearm_after_reset_percent_left matches Some(percent) ==> percent <= 100,
        ensures
            final(self)@ == old(self)@.applied(event, *settings),
            effects@ == reduced(old(self)@.runtime, event, *settings).1,
    {
        let mut runtime = QuotaGuardRuntimeState::default();
        std::mem::swap(&mut runtime, &mut self.runtime);
        let (next, effects) = reduce(runtime, event, settings);
        close_enforcement_before_persistence(&mut self.gate, &effects);
        self.runtime = next;
        effects
    }
}

/// What a session's report leads to.
pub enum ObservedStep {
    /// Nothing more.
    Nothing,
    /// The account of the workspace has to be established. `reason` is why it was called into
    /// question.
    Bootstrap { workspace_id: String, reason: Option<String> },
    /// A guarded workspace has gone: intervention is asked for, and the state is to be written.
    Intervened,
    /// Rate limits are to be read from the value.
    RateLimits { value: Json },
    /// The event is to be applied.
    Apply { event: ReducerEvent },
}

/// The process gate that knows the workspace in the session, not verified.
pub open spec fn registering(
    gate: GateView,
    session_epoch: Seq<char>,
    workspace_id: Seq<char>,
) -> GateView {
    GateView { permits: gate.permits.insert((session_epoch, workspace_id), false), ..gate }
}

/// The process gate that does not know the workspace in the session.
pub open spec fn revoking(
    gate: GateView,
    session_epoch: Seq<char>,
    workspace_id: Seq<char>,
) -> GateView {
    GateView { permits: gate.permits.remove((session_epoch, workspace_id)), ..gate }
}

/// Whether `after` and `step` are what a report leads to. A report of a session that the
/// workspace is not bound to leads to nothing.
pub open spec fn observes(
    before: CoordinatorView,
    event: QuotaGuardEvent,
    guard_enabled: bool,
    now_ms: i64,
    after: CoordinatorView,
    step: ObservedStep,
) -> bool {
    match event {
        QuotaGuardEvent::WorkspaceBound { session_epoch, workspace_id, canonical_codex_home } => {
            &&& after == (CoordinatorView {
                gate: registering(before.gate, session_epoch@, workspace_id@),
                bindings: before.bindings.insert(
                    workspace_id@,
                    Binding { session_epoch, canonical_codex_home },
                ),
                ..before
            })
            &&& step == if guard_enabled {
                ObservedStep::Bootstrap { workspace_id, reason: None }
            } else {
                ObservedStep::Nothing
            }
        },
        QuotaGuardEvent::WorkspaceDisconnected { session_epoch, workspace_id } => {
            let revoked = CoordinatorView {
                gate: revoking(before.gate, session_epoch@, workspace_id@),
                ..before
            };
            let unbound = CoordinatorView {
                bindings: before.bindings.remove(workspace_id@),
                ..revoked
            };
            if !before.is_bound(session_epoch@, workspace_id@) {
                after == revoked && step == ObservedStep::Nothing
            } else if before.gate.policy == ProcessPolicy::DisabledOpen {
                after == unbound && step == ObservedStep::Nothing
            } else {
                after == unbound.failed("guarded workspace disconnected"@, now_ms) && step
                    == ObservedStep::Intervened
            }
        },
        QuotaGuardEvent::RateLimits { session_epoch, workspace_id, value } => {
            &&& after == before
            &&& step == if before.is_bound(session_epoch@, workspace_id@) {
                ObservedStep::RateLimits { value }
            } else {
                ObservedStep::Nothing
            }
        },
        QuotaGuardEvent::TurnStarted { session_epoch, workspace_id, thread_id, turn_id } => {
            &&& after == before
            &&& step == if before.is_bound(session_epoch@, workspace_id@) {
                ObservedStep::Apply {
                    event: ReducerEvent::TurnStarted {
                        turn: TurnKey { session_epoch, workspace_id, thread_id, turn_id },
                        now_ms,
                    },
                }
            } else {
                ObservedStep::Nothing
            }
        },
        QuotaGuardEvent::TurnCompleted {
            session_epoch,
            workspace_id,
            thread_id,
            turn_id,
            status,
            error,
        } => {
            &&& after == before
            &&& step == if before.is_bound(session_epoch@, workspace_id@) {
                ObservedStep::Apply {
                    event: ReducerEvent::TurnTerminal {
                        turn: TurnKey { session_epoch, workspace_id, thread_id, turn_id },
                        status,
                        error,
                        now_ms,
                    },
                }
            } else {
                ObservedStep::Nothing
            }
        },
        QuotaGuardEvent::AccountIdentityChanged { session_epoch, workspace_id, reason } => {
            if before.is_bound(session_epoch@, workspace_id@) {
                after == (CoordinatorView { gate: closed(before.gate), ..before }) && step
                    == (ObservedStep::Bootstrap { workspace_id, reason: Some(reason) })
            } else {
                after == before && step == ObservedStep::Nothing
            }
        },
        QuotaGuardEvent::PendingLocalStart {
            request_id,
            session_epoch,
            workspace_id,
            request_thread_id,
            expected_thread_id,
            request_kind,
        } => {
            &&& after == before
            &&& step == if before.is_bound(session_epoch@, workspace_id@) {
                ObservedStep::Apply {
                    event: ReducerEvent::PendingStartRecorded {
                        start: PendingLocalStart {
                            request_id,
                            session_epoch,
                            workspace_id,
                            request_thread_id,
                            expected_thread_id,
                            request_kind,
                            response_thread_id: None,
                            response_received_at: None,
                            generation: before.runtime.lifecycle_generation,
                            disposition: None,
                            registered_at: now_ms,
                        },
                        now_ms,
                    },
                }
            } else {
                ObservedStep::Nothing
            }
        },
        QuotaGuardEvent::StartFailed { request_id, session_epoch, workspace_id, .. } => {
            &&& after == before
            &&& step == if before.is_bound(session_epoch@, workspace_id@) {
                ObservedStep::Apply {
                    event: ReducerEvent::PendingStartFailed {
                        request_id,
                        generation: before.runtime.lifecycle_generation,
                        now_ms,
                    },
                }
            } else {
                ObservedStep::Nothing
            }
        },
        QuotaGuardEvent::StartResponse { request_id, session_epoch, workspace_id, value, .. } => {
            &&& after == before
            &&& if before.is_bound(session_epoch@, workspace_id@) {
                step matches ObservedStep::Apply { event } && is_start_response(
                    event,
                    request_id,
                    session_epoch,
                    workspace_id,
                    answered_thread(value@),
                    now_ms,
                )
            } else {
                step == ObservedStep::Nothing
            }
        },
    }
}

/// Whether the event is the response to a start that names this thread.
pub open spec fn is_start_response(
    event: ReducerEvent,
    request_id: u64,
    session_epoch: String,
    workspace_id: String,
    thread_id: Option<Seq<char>>,
    now_ms: i64,
) -> bool {
    exists|thread: Option<String>| #[trigger]
        text_view(thread) == thread_id && event == (ReducerEvent::StartResponse {
            request_id,
            session_epoch,
            workspace_id,
            thread_id: thread,
            now_ms,
        })
}

impl Coordinator {
    fn bound_here(&self, session_epoch: &str, workspace_id: &str) -> (r: bool)
        ensures
            r == self@.is_bound(session_epoch@, workspace_id@),
    {
        match self.bindings.get(workspace_id) {
            Some(binding) => same_text(binding.session_epoch.as_str(), session_epoch),
            None => false,
        }
    }

    /// Takes in what a session reports.
    pub fn handle_observed(
        &mut self,
        event: QuotaGuardEvent,
        guard_enabled: bool,
        now_ms: i64,
    ) -> (step: ObservedStep)
        ensures
            observes(old(self)@, event, guard_enabled, now_ms, final(self)@, step),
    {
        match event {
            QuotaGuardEvent::WorkspaceBound { session_epoch, workspace_id, canonical_codex_home } => {
                self.gate.register_closed_epoch(session_epoch.clone(), workspace_id.clone());
                self.bindings.insert(
                    workspace_id.as_str(),
                    Binding { session_epoch, canonical_codex_home },
                );
                if guard_enabled {
                    ObservedStep::Bootstrap { workspace_id, reason: None }
                } else {
                    ObservedStep::Nothing
                }
            },
            QuotaGuardEvent::WorkspaceDisconnected { session_epoch, workspace_id } => {
                self.gate.revoke_epoch(session_epoch.as_str(), workspace_id.as_str());
                if !self.bound_here(session_epoch.as_str(), workspace_id.as_str()) {
                    return ObservedStep::Nothing;
                }
                self.bindings.remove(workspace_id.as_str());
                if self.gate.policy() == ProcessPolicy::DisabledOpen {
                    return ObservedStep::Nothing;
                }
                self.mark_intervention("guarded workspace disconnected", now_ms);
                ObservedStep::Intervened
            },
            QuotaGuardEvent::RateLimits { session_epoch, workspace_id, value } => {
                if self.bound_here(session_epoch.as_str(), workspace_id.as_str()) {
                    ObservedStep::RateLimits { value }
                } else {
                    ObservedStep::Nothing
                }
            },
            QuotaGuardEvent::TurnStarted { session_epoch, workspace_id, thread_id, turn_id } => {
                if self.bound_here(session_epoch.as_str(), workspace_id.as_str()) {
                    ObservedStep::Apply {
                        event: ReducerEvent::TurnStarted {
                            turn: TurnKey { session_epoch, workspace_id, thread_id, turn_id },
                            now_ms,
                        },
                    }
                } else {
                    ObservedStep::Nothing
                }
            },
            QuotaGuardEvent::TurnCompleted {
                session_epoch,
                workspace_id,
                thread_id,
                turn_id,
                status,
                error,
            } => {
                if self.bound_here(session_epoch.as_str(), workspace_id.as_str()) {
                    ObservedStep::Apply {
                        event: ReducerEvent::TurnTerminal {
                            turn: TurnKey { session_epoch, workspace_id, thread_id, turn_id },
                            status,
                            error,
                            now_ms,
                        },
                    }
                } else {
                    ObservedStep::Nothing
                }
            },
            QuotaGuardEvent::AccountIdentityChanged { session_epoch, workspace_id, reason } => {
                if self.bound_here(session_epoch.as_str(), workspace_id.as_str()) {
                    self.gate.set_policy(ProcessPolicy::EnabledClosed);
                    ObservedStep::Bootstrap { workspace_id, reason: Some(reason) }
                } else {
                    ObservedStep::Nothing
                }
            },
            QuotaGuardEvent::PendingLocalStart {
                request_id,
                session_epoch,
                workspace_id,
                request_thread_id,
                expected_thread_id,
                request_kind,
            } => {
                if !self.bound_here(session_epoch.as_str(), workspace_id.as_str()) {
                    return ObservedStep::Nothing;
                }
                ObservedStep::Apply {
                    event: ReducerEvent::PendingStartRecorded {
                        start: PendingLocalStart {
                            request_id,
                            session_epoch,
                            workspace_id,
                            request_thread_id,
                            expected_thread_id,
                            request_kind,
                            response_thread_id: None,
                            response_received_at: None,
                            generation: self.runtime.lifecycle_generation,
                            disposition: None,
                            registered_at: now_ms,
                        },
                        now_ms,
                    },
                }
            },
            QuotaGuardEvent::StartFailed { request_id, session_epoch, workspace_id, .. } => {
                if !self.bound_here(session_epoch.as_str(), workspace_id.as_str()) {
                    return ObservedStep::Nothing;
                }
                ObservedStep::Apply {
                    event: ReducerEvent::PendingStartFailed {
                        request_id,
                        generation: self.runtime.lifecycle_generation,
                        now_ms,
                    },
                }
            },
            QuotaGuardEvent::StartResponse { request_id, session_epoch, workspace_id, value, .. } => {
                if !self.bound_here(session_epoch.as_str(), workspace_id.as_str()) {
                    return ObservedStep::Nothing;
                }
                let thread_id = response_thread_id(&value);
                let event = ReducerEvent::StartResponse {
                    request_id,
                    session_epoch,
                    workspace_id,
                    thread_id,
                    now_ms,
                };
                proof {
                    assert(text_view(thread_id) == answered_thread(value@));
                    assert(is_start_response(
                        event,
                        request_id,
                        session_epoch,
                        workspace_id,
                        answered_thread(value@),
                        now_ms,
                    ));
                }
                ObservedStep::Apply { event }
            },
        }
    }
}

/// The process gate that admits every bound workspace that it knows.
pub open spec fn all_open(gate: GateView, bindings: Map<Seq<char>, Binding>) -> GateView {
    GateView {
        policy: ProcessPolicy::EnabledOpen,
        permits: Map::new(
            |key: (Seq<char>, Seq<char>)| gate.permits.dom().contains(key),
            |key: (Seq<char>, Seq<char>)|
                bound_epoch(bindings, key.1) == Some(key.0) || gate.permits[key],
        ),
        ..gate
    }
}

impl Coordinator {
    /// Opens the process and admits every bound workspace.
    pub fn open_bound_workspaces(&mut self)
        ensures
            final(self)@ == (CoordinatorView {
                gate: all_open(old(self)@.gate, old(self)@.bindings),
                ..old(self)@
            }),
    {
        let ghost before = self.gate@;
        let ghost bindings = self.bindings@;
        self.gate.set_policy(ProcessPolicy::EnabledOpen);
        let mut i: usize = 0;
        while i < self.bindings.len()
            invariant
                i <= self.bindings.spec_len(),
                self.bindings == old(self).bindings,
                bindings == self.bindings@,
                self@ == (CoordinatorView { gate: self.gate@, ..old(self)@ }),
                self.gate@.policy == ProcessPolicy::EnabledOpen,
                self.gate@.admissions == before.admissions,
                self.gate@.permits.dom() =~= before.permits.dom(),
                forall|key: (Seq<char>, Seq<char>)| #[trigger]
                    before.permits.dom().contains(key) ==> self.gate@.permits[key] == (
                    before.permits[key] || exists|k: int|
                        0 <= k < i && #[trigger] self.bindings.key_at(k) == key.1
                            && bindings[key.1].session_epoch@ == key.0),
            decreases self.bindings.spec_len() - i,
        {
            let key = self.bindings.key(i);
            let ghost earlier = self.gate@;
            if let Some(binding) = self.bindings.get(key) {
                let ghost opened = (binding.session_epoch@, key@);
                self.gate.set_epoch_open(binding.session_epoch.as_str(), key, true);
                proof {
                    let at = i as int;
                    assert(self.bindings.key_at(at) == opened.1);
                    assert forall|key: (Seq<char>, Seq<char>)| #[trigger]
                        before.permits.dom().contains(key) implies self.gate@.permits[key] == (
                    before.permits[key] || exists|k: int|
                        0 <= k < i + 1 && #[trigger] self.bindings.key_at(k) == key.1
                            && bindings[key.1].session_epoch@ == key.0) by {
                        if key == opened {
                            assert(self.bindings.key_at(at) == key.1);
                        } else {
                            assert(self.gate@.permits[key] == earlier.permits[key]);
                            if exists|k: int|
                                0 <= k < i + 1 && #[trigger] self.bindings.key_at(k) == key.1
                                    && bindings[key.1].session_epoch@ == key.0 {
                                let k = choose|k: int|
                                    0 <= k < i + 1 && #[trigger] self.bindings.key_at(k) == key.1
                                        && bindings[key.1].session_epoch@ == key.0;
                                if k == at {
                                    assert(key == opened);
                                }
                            }
                        }
                    }
                }
            }
            i += 1;
        }
        proof {
            let right = all_open(before, bindings);
            assert forall|key: (Seq<char>, Seq<char>)|
                right.permits.dom().contains(key) implies self.gate@.permits[key]
                == right.permits[key] by {
                assert(before.permits.dom().contains(key));
                if bound_epoch(bindings, key.1) == Some(key.0) {
                    self.bindings.lemma_keys_have_positions(key.1);
                    let k = choose|k: int|
                        0 <= k < self.bindings.spec_len() && #[trigger] self.bindings.key_at(k)
                            == key.1;
                    assert(self.bindings.key_at(k) == key.1);
                } else if exists|k: int|
                    0 <= k < i && #[trigger] self.bindings.key_at(k) == key.1
                        && bindings[key.1].session_epoch@ == key.0 {
                    let k = choose|k: int|
                        0 <= k < i && #[trigger] self.bindings.key_at(k) == key.1
                            && bindings[key.1].session_epoch@ == key.0;
                    self.bindings.lemma_positions_have_keys(k);
                }
            }
            assert(self.gate@.permits =~= right.permits);
            assert(self.gate@ =~= right);
        }
    }

    /// Opens the process gate where the account is monitored, and closes it otherwise.
    pub fn synchronize_gate_with_runtime(&mut self)
        ensures
            final(self)@ == (CoordinatorView {
                gate: if old(self)@.monitors() {
                    all_open(old(self)@.gate, old(self)@.bindings)
                } else {
                    closed(old(self)@.gate)
                },
                ..old(self)@
            }),
    {
        if self.is_monitoring() {
            self.open_bound_workspaces();
        } else {
            self.gate.close();
        }
    }

    fn is_monitoring(&self) -> (r: bool)
        ensures
            r == self@.monitors(),
    {
        match &self.runtime.account {
            Some(account) => account.phase == QuotaGuardPhase::Monitoring,
            None => false,
        }
    }
}

/// What a change of the settings leads to.
pub enum SettingsStep {
    /// The limiter is turned off: the event is to be applied, and `guard_disabled` called.
    Disable { event: ReducerEvent },
    /// The limiter is turned on: the state is to be written, and only then the account of the
    /// workspace established or, where none is bound, the error answered.
    Enable { workspace_id: Result<String, String> },
    /// The process gate follows the state.
    Synchronized,
}

/// Whether a change of the settings leads to `step` and leaves the coordinator as `after`. One that
/// turns the limiter on closes the process first; it then needs a workspace that is bound.
pub open spec fn settings_lead_to(
    before: CoordinatorView,
    change: SettingsChanged,
    now_ms: i64,
    after: CoordinatorView,
    step: SettingsStep,
) -> bool {
    if !change.updated.enabled {
        after == before && step == (SettingsStep::Disable { event: ReducerEvent::Disable { now_ms } })
    } else if !change.previous.enabled {
        &&& after == (CoordinatorView { gate: closed(before.gate), ..before })
        &&& step matches SettingsStep::Enable { workspace_id } && match workspace_id {
            Ok(bound) => before.bindings.dom().contains(bound@),
            Err(message) => message@ == NO_WORKSPACE_TO_ENABLE@ && before.bindings.dom()
                =~= Set::<Seq<char>>::empty(),
        }
    } else {
        &&& after == (CoordinatorView {
            gate: if before.monitors() {
                all_open(before.gate, before.bindings)
            } else {
                closed(before.gate)
            },
            ..before
        })
        &&& step == SettingsStep::Synchronized
    }
}

/// What is wrong where the limiter is turned on and no workspace is bound.
pub const NO_WORKSPACE_TO_ENABLE: &'static str = "quota guard requires a connected local workspace before it can be enabled";

/// Why a workspace cannot be established that is not bound.
pub const BINDING_MISSING: &'static str = "workspace binding missing for quota bootstrap";

/// Why an account cannot be established whose owner is not known.
pub const NO_STRICT_IDENTITY: &'static str = "account/read returned no strict identity";

/// Why an account is not taken in the place of another.
pub const IDENTITY_CHANGED: &'static str = "strict account identity changed; disable and re-enable quota guard";

impl Coordinator {
    /// Takes in a change of the settings. One that turns the limiter on closes the process gate
    /// until an account is established.
    pub fn handle_settings_changed(&mut self, change: SettingsChanged, now_ms: i64) -> (step:
        SettingsStep)
        ensures
            settings_lead_to(old(self)@, change, now_ms, final(self)@, step),
    {
        if !change.updated.enabled {
            return SettingsStep::Disable { event: ReducerEvent::Disable { now_ms } };
        }
        if change.previous.enabled {
            self.synchronize_gate_with_runtime();
            return SettingsStep::Synchronized;
        }
        self.gate.close();
        let workspace_id = if self.bindings.len() == 0 {
            Err(NO_WORKSPACE_TO_ENABLE.to_owned())
        } else {
            Ok(self.bindings.key(0).to_owned())
        };
        SettingsStep::Enable { workspace_id }
    }

    /// Admits everything, once the limiter is off.
    pub fn guard_disabled(&mut self)
        ensures
            final(self)@ == (CoordinatorView {
                gate: GateView { policy: ProcessPolicy::DisabledOpen, ..old(self)@.gate },
                ..old(self)@
            }),
    {
        self.gate.set_policy(ProcessPolicy::DisabledOpen);
    }

    /// Begins to establish the account of a workspace: nothing is admitted until it is. Gives
    /// the epoch of the session that serves the workspace.
    pub fn begin_bootstrap(&mut self, workspace_id: &str) -> (r: Result<String, String>)
        ensures
            match r {
                Ok(epoch) => old(self)@.bindings.dom().contains(workspace_id@) && epoch@
                    == old(self)@.bindings[workspace_id@].session_epoch@ && final(self)@ == (
                CoordinatorView { gate: closed(old(self)@.gate), ..old(self)@ }),
                Err(message) => !old(self)@.bindings.dom().contains(workspace_id@)
                    && final(self)@ == old(self)@ && message@ == BINDING_MISSING@,
            },
    {
        let epoch = match self.bindings.get(workspace_id) {
            Some(binding) => binding.session_epoch.clone(),
            None => {
                return Err(BINDING_MISSING.to_owned());
            },
        };
        self.gate.set_policy(ProcessPolicy::EnabledClosed);
        Ok(epoch)
    }

    /// Goes on once the owner of the account was read. An account that is not known yet, or
    /// not guarded, is enabled; another one than the known is refused.
    pub fn identity_read(&self, workspace_id: &str, identity: Option<&str>, now_ms: i64) -> (r:
        Result<Option<ReducerEvent>, String>)
        ensures
            match establishes(self@, workspace_id@, crate::text::str_view(identity)) {
                Err(reason) => r matches Err(message) && message@ == reason,
                Ok(None) => r == Ok::<Option<ReducerEvent>, String>(None),
                Ok(Some(key)) => r matches Ok(Some(event)) && is_enable(event, key, now_ms),
            },
    {
        let binding = match self.bindings.get(workspace_id) {
            Some(binding) => binding,
            None => {
                return Err(BINDING_MISSING.to_owned());
            },
        };
        let identity = match identity {
            Some(identity) => identity,
            None => {
                return Err(NO_STRICT_IDENTITY.to_owned());
            },
        };
        let key = account_key(binding.canonical_codex_home.as_str(), identity);
        if let Some(account) = &self.runtime.account {
            if !same_text(account.account_key.as_str(), key.as_str()) {
                return Err(IDENTITY_CHANGED.to_owned());
            }
            if account.phase != QuotaGuardPhase::Disabled {
                return Ok(None);
            }
        }
        let ghost expected = key@;
        let event = ReducerEvent::Enable { account_key: key, now_ms };
        proof {
            assert(key@ == expected);
            assert(is_enable(event, expected, now_ms));
        }
        Ok(Some(event))
    }

    /// Notes that the workspace was verified last.
    pub fn associate(&mut self, workspace_id: &str, now_ms: i64)
        ensures
            final(self)@.gate == old(self)@.gate,
            final(self)@ == (CoordinatorView { runtime: final(self)@.runtime, ..old(self)@ }),
            associates(old(self)@.runtime, workspace_id@, now_ms, final(self)@.runtime),
    {
        if let Some(mut account) = self.runtime.account.take() {
            let ghost before = account@;
            let keep = |id: &String| -> (b: bool)
                ensures
                    b == (id@ != workspace_id@),
            { !same_text(id.as_str(), workspace_id) };
            crate::search::retain_where(
                &mut account.associated_workspace_ids,
                keep,
                Ghost(|id: String| id@ != workspace_id@),
            );
            let ghost kept = account.associated_workspace_ids@;
            let id = workspace_id.to_owned();
            account.associated_workspace_ids.insert(0, id);
            account.updated_at = now_ms;
            proof {
                assert(account@.associated_workspace_ids =~= seq![id] + kept);
                assert(account@ =~= (AccountView {
                    associated_workspace_ids: seq![id] + before.associated_workspace_ids.filter(
                        |id: String| id@ != workspace_id@,
                    ),
                    updated_at: now_ms,
                    ..before
                }));
                assert(id@ == workspace_id@);
            }
            self.runtime.account = Some(account);
        }
    }

    /// The event that a turn has ended, where its thread says that it is not active.
    pub fn turn_checked(&self, turn: TurnKey, thread: &Json, now_ms: i64) -> (r: Option<ReducerEvent>)
        ensures
            if active_turn(thread@) == Some(turn.turn_id@) {
                r is None
            } else {
                r matches Some(event) && is_reconciled_end(event, turn, now_ms)
            },
    {
        let active = match active_turn_id(thread) {
            Some(id) => same_text(id.as_str(), turn.turn_id.as_str()),
            None => false,
        };
        if active {
            return None;
        }
        let status = "reconciled".to_owned();
        let event = ReducerEvent::TurnTerminal { turn, status, error: None, now_ms };
        proof {
            assert(status@ == "reconciled"@);
            assert(is_reconciled_end(event, turn, now_ms));
        }
        Some(event)
    }

    /// Ends the establishing of an account: the workspace is admitted in the session where the
    /// process is open. Gives the time of the next check where one has to be set up.
    pub fn finish_bootstrap(&mut self, session_epoch: &str, workspace_id: &str, now_ms: i64) -> (
        due: Option<i64>)
        ensures
            (final(self)@, due) == established(
                old(self)@,
                session_epoch@,
                workspace_id@,
                now_ms,
            ),
    {
        let due = self.schedule_healthy_revalidation(now_ms);
        if self.gate.policy() == ProcessPolicy::EnabledOpen {
            self.gate.set_epoch_open(session_epoch, workspace_id, true);
        }
        due
    }

    /// Sets up the next check of a monitored account, where none is set up.
    pub fn schedule_healthy_revalidation(&mut self, now_ms: i64) -> (due: Option<i64>)
        ensures
            (final(self)@, due) == scheduling(old(self)@, now_ms),
    {
        let monitors = match &self.runtime.account {
            Some(account) => account.phase == QuotaGuardPhase::Monitoring,
            None => false,
        };
        if !monitors || self.healthy_due.is_some() {
            return None;
        }
        let due: i64 = match now_ms.checked_add(REVALIDATION_MS) {
            Some(due) => due,
            None => i64::MAX,
        };
        self.healthy_due = Some(due);
        Some(due)
    }
}

/// The time of the next check after `now_ms`.
pub open spec fn next_check(now_ms: i64) -> i64 {
    if now_ms + REVALIDATION_MS > i64::MAX {
        i64::MAX
    } else {
        (now_ms + REVALIDATION_MS) as i64
    }
}

/// The coordinator with the next check of a monitored account set up, and its time, where none
/// was set up.
pub open spec fn scheduling(before: CoordinatorView, now_ms: i64) -> (CoordinatorView, Option<i64>) {
    if before.monitors() && before.healthy_due is None {
        (
            CoordinatorView { healthy_due: Some(next_check(now_ms)), ..before },
            Some(next_check(now_ms)),
        )
    } else {
        (before, None)
    }
}

/// The coordinator with the account of a workspace established: the next check is set up, and
/// the workspace is admitted in the session where it is known and the process is open.
pub open spec fn established(
    before: CoordinatorView,
    session_epoch: Seq<char>,
    workspace_id: Seq<char>,
    now_ms: i64,
) -> (CoordinatorView, Option<i64>) {
    let (scheduled, due) = scheduling(before, now_ms);
    let permits = before.gate.permits;
    (
        CoordinatorView {
            gate: if before.gate.policy == ProcessPolicy::EnabledOpen && permits.dom().contains(
                (session_epoch, workspace_id),
            ) {
                GateView {
                    permits: permits.insert((session_epoch, workspace_id), true),
                    ..before.gate
                }
            } else {
                before.gate
            },
            ..scheduled
        },
        due,
    )
}

/// The key of the account to enable for a workspace whose owner was read; nothing where the
/// account is guarded already; or why it is refused.
pub open spec fn establishes(
    before: CoordinatorView,
    workspace_id: Seq<char>,
    identity: Option<Seq<char>>,
) -> Result<Option<Seq<char>>, Seq<char>> {
    if !before.bindings.dom().contains(workspace_id) {
        Err(BINDING_MISSING@)
    } else if identity is None {
        Err(NO_STRICT_IDENTITY@)
    } else {
        let key = spec_account_key(
            before.bindings[workspace_id].canonical_codex_home@,
            identity->0,
        );
        match before.runtime.account {
            None => Ok(Some(key)),
            Some(account) => if account.account_key@ != key {
                Err(IDENTITY_CHANGED@)
            } else if account.phase == QuotaGuardPhase::Disabled {
                Ok(Some(key))
            } else {
                Ok(None)
            },
        }
    }
}

/// Whether the event enables the account with this key.
pub open spec fn is_enable(event: ReducerEvent, key: Seq<char>, now_ms: i64) -> bool {
    exists|account_key: String| #[trigger]
        account_key@ == key && event == (ReducerEvent::Enable { account_key, now_ms })
}

/// Whether the event says that the turn was found to have ended.
pub open spec fn is_reconciled_end(event: ReducerEvent, turn: TurnKey, now_ms: i64) -> bool {
    exists|status: String| #[trigger]
        status@ == "reconciled"@ && event == (ReducerEvent::TurnTerminal {
            turn,
            status,
            error: None,
            now_ms,
        })
}

/// Whether `after` differs from `before` in that the workspace comes first among the verified
/// ones, and only there.
pub open spec fn associates(
    before: RuntimeView,
    workspace_id: Seq<char>,
    now_ms: i64,
    after: RuntimeView,
) -> bool {
    match before.account {
        None => after == before,
        Some(account) => exists|id: String| #[trigger]
            id@ == workspace_id && after == (RuntimeView {
                account: Some(
                    AccountView {
                        associated_workspace_ids: seq![id]
                            + account.associated_workspace_ids.filter(
                            |id: String| id@ != workspace_id,
                        ),
                        updated_at: now_ms,
                        ..account
                    },
                ),
                ..before
            }),
    }
}

/// Something that the coordinator has to be reminded of.
#[derive(Debug, PartialEq, Eq)]
pub enum ActorEvent {
    FinalizeClosedEpisode { generation: u64 },
    InterruptDeadline {
        turn: TurnKey,
        generation: u64,
        operation_id: u64,
        attempt: u8,
        acknowledgement: bool,
    },
    StartExpiry { request_id: u64, generation: u64 },
    ProvisionalExpiry { turn: TurnKey, generation: u64, terminal: bool },
    HealthyRevalidate { generation: u64, due_at: i64 },
}

/// What a reminder leads to.
pub enum TimerStep {
    Nothing,
    Apply { event: ReducerEvent },
    /// The owner of the account and its limits are to be read again.
    Revalidate,
}

/// The event that a reminder, other than one to revalidate, stands for.
pub open spec fn reminded(event: ActorEvent, now_ms: i64) -> Option<ReducerEvent> {
    match event {
        ActorEvent::FinalizeClosedEpisode { generation } => Some(
            ReducerEvent::FinalizeClosedEpisode { transition_id: generation, now_ms },
        ),
        ActorEvent::InterruptDeadline {
            turn,
            generation,
            operation_id,
            attempt,
            acknowledgement,
        } => Some(
            ReducerEvent::InterruptDeadline {
                turn,
                generation,
                operation_id,
                attempt,
                acknowledgement,
                now_ms,
            },
        ),
        ActorEvent::StartExpiry { request_id, generation } => Some(
            ReducerEvent::PendingStartExpired { request_id, generation, now_ms },
        ),
        ActorEvent::ProvisionalExpiry { turn, generation, terminal } => Some(
            ReducerEvent::ProvisionalExpired { turn, generation, terminal, now_ms },
        ),
        ActorEvent::HealthyRevalidate { .. } => None,
    }
}

/// Whether a timer that has run out leads to `step` and leaves the coordinator as `after`.
pub open spec fn reminds(
    before: CoordinatorView,
    event: ActorEvent,
    now_ms: i64,
    after: CoordinatorView,
    step: TimerStep,
) -> bool {
    match event {
        ActorEvent::HealthyRevalidate { generation, due_at } => if before.monitors()
            && before.runtime.lifecycle_generation == generation && now_ms >= due_at {
            step == TimerStep::Revalidate && after == (CoordinatorView {
                healthy_due: None,
                ..before
            })
        } else {
            step == TimerStep::Nothing && after == before
        },
        _ => step == (TimerStep::Apply { event: reminded(event, now_ms)->0 }) && after == before,
    }
}

/// How long to wait for a deadline, in milliseconds; not at all once it has passed.
pub open spec fn waiting(deadline: i64, now_ms: i64) -> u64 {
    if deadline <= now_ms {
        0
    } else if deadline - now_ms > i64::MAX {
        i64::MAX as u64
    } else {
        (deadline - now_ms) as u64
    }
}

/// How long to wait for a deadline, in milliseconds.
pub fn wait_ms(deadline: i64, now_ms: i64) -> (r: u64)
    ensures
        r == waiting(deadline, now_ms),
{
    if deadline <= now_ms {
        return 0;
    }
    match deadline.checked_sub(now_ms) {
        Some(wait) => wait as u64,
        None => 0x7fff_ffff_ffff_ffff,
    }
}

/// What has to be done outside for an effect.
pub enum EffectStep {
    /// Nothing more.
    Done,
    /// Once no request is under way, the episode of this generation is to be finalized.
    AwaitAdmissions { generation: u64 },
    /// The turn is to be interrupted, after the state is written.
    InterruptTurn { turn: TurnKey, generation: u64, operation_id: u64, attempt: u8 },
    /// The thread of the turn is to be read.
    ReadThread { turn: TurnKey, generation: u64, operation_id: u64, attempt: u8 },
    /// The breach is to be notified of.
    Notify { body: String },
    /// It is to be told that quota is available again; whether that succeeds does not matter.
    NotifyAvailable { title: String, body: String },
    /// The coordinator is to be reminded after the wait.
    Schedule { wait_ms: u64, event: ActorEvent },
    /// The limits of the workspace's account are to be read in full.
    ReadRateLimits { workspace_id: String },
    /// Processes outside are to be suspended.
    SuspendExternalEngines,
    /// Processes outside that were started since are to be suspended too.
    MaintainExternalEngineSuspension { prevent_new_sessions: bool },
    /// Suspended processes are to be resumed.
    ResumeExternalEngines,
    /// The settings are to be written.
    SaveSettings { settings: QuotaGuardSettings },
}

/// What a window is called in a notification.
pub open spec fn window_title(window: QuotaWindowKind) -> Seq<char> {
    match window {
        QuotaWindowKind::Primary => "primary window"@,
        QuotaWindowKind::Secondary => "secondary window"@,
        QuotaWindowKind::HardLimit => "hard limit"@,
    }
}

/// The text of the notification of an episode.
pub open spec fn notice(runtime: RuntimeView, episode: EpisodeKey) -> Seq<char> {
    match episode {
        EpisodeKey::HardLimit { .. } => breach_body(
            "hard limit"@,
            100,
            100,
            "after the next verified reset"@,
        ),
        EpisodeKey::Threshold { window, threshold_percent, resets_at, .. } => breach_body(
            window_title(window),
            match runtime.account {
                Some(account) => match use_of(snapshot_view(account.snapshot), window) {
                    Some(used) => used,
                    None => threshold_percent,
                },
                None => threshold_percent,
            },
            threshold_percent,
            match resets_at {
                Some(seconds) => signed_decimal(seconds as int),
                None => "when the quota service reports a reset"@,
            },
        ),
    }
}

/// Why the limits cannot be read where no workspace was ever verified.
pub const NOTHING_TO_VERIFY: &'static str = "quota guard has no associated workspace for verification";

/// The state with a line added to the activity log.
pub open spec fn logged(
    runtime: RuntimeView,
    kind: QuotaGuardActivityKind,
    operation_id: Option<u64>,
    turn: Option<TurnKey>,
    message: Option<Seq<char>>,
    now_ms: i64,
) -> RuntimeView {
    RuntimeView {
        account: match runtime.account {
            Some(account) => Some(
                account.with_activity(
                    ActivityView {
                        id: None,
                        kind,
                        timestamp: now_ms,
                        operation_id,
                        workspace_id: match turn {
                            Some(key) => Some(key.workspace_id@),
                            None => None,
                        },
                        thread_id: match turn {
                            Some(key) => Some(key.thread_id@),
                            None => None,
                        },
                        turn_id: match turn {
                            Some(key) => Some(key.turn_id@),
                            None => None,
                        },
                        attempt: None,
                        message,
                    },
                ),
            ),
            None => None,
        },
        ..runtime
    }
}

/// The settings that no longer respond until they are armed again.
pub open spec fn disarmed(settings: QuotaGuardSettings) -> QuotaGuardSettings {
    QuotaGuardSettings { armed: false, ..settings }
}

/// The settings with thresholds that are not below what is used.
pub open spec fn raised(settings: QuotaGuardSettings, used_percent: u8) -> QuotaGuardSettings {
    QuotaGuardSettings {
        primary_threshold_percent: if settings.primary_threshold_percent < used_percent {
            used_percent
        } else {
            settings.primary_threshold_percent
        },
        secondary_threshold_percent: if settings.secondary_threshold_percent < used_percent {
            used_percent
        } else {
            settings.secondary_threshold_percent
        },
        ..settings
    }
}

/// The settings that are armed at a threshold.
pub open spec fn rearmed_at(settings: QuotaGuardSettings, threshold_percent: u8) -> QuotaGuardSettings {
    QuotaGuardSettings {
        armed: true,
        primary_threshold_percent: threshold_percent,
        secondary_threshold_percent: threshold_percent,
        ..settings
    }
}

/// Whether `after` and `step` are what an effect leads to.
pub open spec fn runs(
    before: CoordinatorView,
    effect: ReducerEffect,
    settings: QuotaGuardSettings,
    now_ms: i64,
    after: CoordinatorView,
    step: Result<EffectStep, String>,
) -> bool {
    match effect {
        ReducerEffect::SetProcessClosed => {
            &&& after == (CoordinatorView { gate: closed(before.gate), ..before })
            &&& step == Ok::<EffectStep, String>(EffectStep::Done)
        },
        ReducerEffect::SetProcessOpen => {
            &&& after == (CoordinatorView {
                gate: all_open(before.gate, before.bindings),
                ..before
            })
            &&& if before.monitors() && settings.notify_when_available {
                step matches Ok(EffectStep::NotifyAvailable { title, body }) && title@
                    == AVAILABLE_TITLE@ && body@ == AVAILABLE_BODY@
            } else {
                step == Ok::<EffectStep, String>(EffectStep::Done)
            }
        },
        ReducerEffect::FinalizeClosedEpisode { transition_id } => {
            &&& after == before
            &&& step == Ok::<EffectStep, String>(
                EffectStep::AwaitAdmissions { generation: transition_id },
            )
        },
        ReducerEffect::Interrupt { turn, generation, operation_id, attempt } => {
            &&& after == (CoordinatorView {
                runtime: logged(
                    before.runtime,
                    QuotaGuardActivityKind::InterruptRequested,
                    Some(operation_id),
                    Some(turn),
                    None,
                    now_ms,
                ),
                ..before
            })
            &&& step == Ok::<EffectStep, String>(
                EffectStep::InterruptTurn { turn, generation, operation_id, attempt },
            )
        },
        ReducerEffect::ReconcileThread { turn, generation, operation_id, attempt } => {
            &&& after == before
            &&& step == Ok::<EffectStep, String>(
                EffectStep::ReadThread { turn, generation, operation_id, attempt },
            )
        },
        ReducerEffect::Notify { episode } => {
            &&& after == before
            &&& step matches Ok(EffectStep::Notify { body }) && body@ == notice(
                before.runtime,
                episode,
            )
        },
        ReducerEffect::ScheduleInterruptAck { turn, generation, operation_id, attempt, deadline } => {
            &&& after == before
            &&& step == Ok::<EffectStep, String>(
                EffectStep::Schedule {
                    wait_ms: waiting(deadline, now_ms),
                    event: ActorEvent::InterruptDeadline {
                        turn,
                        generation,
                        operation_id,
                        attempt,
                        acknowledgement: true,
                    },
                },
            )
        },
        ReducerEffect::ScheduleInterruptCompletion {
            turn,
            generation,
            operation_id,
            attempt,
            deadline,
        } => {
            &&& after == before
            &&& step == Ok::<EffectStep, String>(
                EffectStep::Schedule {
                    wait_ms: waiting(deadline, now_ms),
                    event: ActorEvent::InterruptDeadline {
                        turn,
                        generation,
                        operation_id,
                        attempt,
                        acknowledgement: false,
                    },
                },
            )
        },
        ReducerEffect::ScheduleStartExpiry { request_id, generation, deadline } => {
            &&& after == before
            &&& step == Ok::<EffectStep, String>(
                EffectStep::Schedule {
                    wait_ms: waiting(deadline, now_ms),
                    event: ActorEvent::StartExpiry { request_id, generation },
                },
            )
        },
        ReducerEffect::ScheduleProvisionalExpiry { turn, generation, terminal, deadline } => {
            &&& after == before
            &&& step == Ok::<EffectStep, String>(
                EffectStep::Schedule {
                    wait_ms: waiting(deadline, now_ms),
                    event: ActorEvent::ProvisionalExpiry { turn, generation, terminal },
                },
            )
        },
        ReducerEffect::ReadFullRateLimits | ReducerEffect::VerifyNow => {
            &&& after == before
            &&& match before.first_associated() {
                Some(workspace_id) => step == Ok::<EffectStep, String>(
                    EffectStep::ReadRateLimits { workspace_id },
                ),
                None => step matches Err(message) && message@ == NOTHING_TO_VERIFY@,
            }
        },
        ReducerEffect::SuspendExternalEngines => {
            &&& after == before
            &&& step == Ok::<EffectStep, String>(EffectStep::SuspendExternalEngines)
        },
        ReducerEffect::MaintainExternalEngineSuspension { prevent_new_sessions } => {
            &&& after == before
            &&& step == Ok::<EffectStep, String>(
                EffectStep::MaintainExternalEngineSuspension { prevent_new_sessions },
            )
        },
        ReducerEffect::ResumeExternalEngines => {
            &&& after == before
            &&& step == Ok::<EffectStep, String>(EffectStep::ResumeExternalEngines)
        },
        ReducerEffect::PersistDisarmed => {
            &&& after == before
            &&& step == Ok::<EffectStep, String>(
                EffectStep::SaveSettings { settings: disarmed(settings) },
            )
        },
        ReducerEffect::RaiseThresholds { used_percent } => {
            &&& after == before
            &&& step == Ok::<EffectStep, String>(
                EffectStep::SaveSettings { settings: raised(settings, used_percent) },
            )
        },
        ReducerEffect::PersistAutoRearm { threshold_percent } => {
            &&& after == before
            &&& step == Ok::<EffectStep, String>(
                EffectStep::SaveSettings { settings: rearmed_at(settings, threshold_percent) },
            )
        },
    }
}

impl Coordinator {
    /// Adds a line to the activity log.
    pub fn append_activity(
        &mut self,
        kind: QuotaGuardActivityKind,
        operation_id: Option<u64>,
        turn: Option<&TurnKey>,
        message: Option<String>,
        now_ms: i64,
    )
        ensures
            final(self)@ == (CoordinatorView {
                runtime: logged(
                    old(self)@.runtime,
                    kind,
                    operation_id,
                    match turn {
                        Some(key) => Some(*key),
                        None => None,
                    },
                    text_view(message),
                    now_ms,
                ),
                ..old(self)@
            }),
    {
        if let Some(mut account) = self.runtime.account.take() {
            let (workspace_id, thread_id, turn_id) = match turn {
                Some(key) => (
                    Some(key.workspace_id.clone()),
                    Some(key.thread_id.clone()),
                    Some(key.turn_id.clone()),
                ),
                None => (None, None, None),
            };
            account.push_activity(
                QuotaGuardActivityEntry {
                    id: None,
                    kind,
                    timestamp: now_ms,
                    operation_id,
                    workspace_id,
                    thread_id,
                    turn_id,
                    attempt: None,
                    message,
                },
            );
            self.runtime.account = Some(account);
        }
    }

    /// The text of the notification of an episode.
    pub fn breach_notice(&self, episode: &EpisodeKey) -> (r: String)
        ensures
            r@ == notice(self@.runtime, *episode),
    {
        match episode {
            EpisodeKey::HardLimit { .. } => quota_guard_breach_body(
                "hard limit",
                100,
                100,
                "after the next verified reset",
            ),
            EpisodeKey::Threshold { window, threshold_percent, resets_at, .. } => {
                let name = match window {
                    QuotaWindowKind::Primary => "primary window",
                    QuotaWindowKind::Secondary => "secondary window",
                    QuotaWindowKind::HardLimit => "hard limit",
                };
                let observed: u8 = match &self.runtime.account {
                    Some(account) => match &account.snapshot {
                        Some(snapshot) => match snapshot.window(*window) {
                            Some(seen) => seen.used_percent,
                            None => *threshold_percent,
                        },
                        None => *threshold_percent,
                    },
                    None => *threshold_percent,
                };
                let reset = match resets_at {
                    Some(seconds) => signed_decimal_text(*seconds),
                    None => "when the quota service reports a reset".to_owned(),
                };
                quota_guard_breach_body(name, observed, *threshold_percent, reset.as_str())
            },
        }
    }

    /// Runs an effect as far as it concerns the coordinator; gives what is left to do.
    pub fn run_effect(
        &mut self,
        effect: ReducerEffect,
        settings: &QuotaGuardSettings,
        now_ms: i64,
    ) -> (step: Result<EffectStep, String>)
        ensures
            runs(old(self)@, effect, *settings, now_ms, final(self)@, step),
    {
        match effect {
            ReducerEffect::SetProcessClosed => {
                self.gate.close();
                Ok(EffectStep::Done)
            },
            ReducerEffect::SetProcessOpen => {
                self.open_bound_workspaces();
                if self.is_monitoring() && settings.notify_when_available {
                    Ok(
                        EffectStep::NotifyAvailable {
                            title: AVAILABLE_TITLE.to_owned(),
                            body: AVAILABLE_BODY.to_owned(),
                        },
                    )
                } else {
                    Ok(EffectStep::Done)
                }
            },
            ReducerEffect::FinalizeClosedEpisode { transition_id } => Ok(
                EffectStep::AwaitAdmissions { generation: transition_id },
            ),
            ReducerEffect::Interrupt { turn, generation, operation_id, attempt } => {
                self.append_activity(
                    QuotaGuardActivityKind::InterruptRequested,
                    Some(operation_id),
                    Some(&turn),
                    None,
                    now_ms,
                );
                Ok(EffectStep::InterruptTurn { turn, generation, operation_id, attempt })
            },
            ReducerEffect::ReconcileThread { turn, generation, operation_id, attempt } => Ok(
                EffectStep::ReadThread { turn, generation, operation_id, attempt },
            ),
            ReducerEffect::Notify { episode } => Ok(
                EffectStep::Notify { body: self.breach_notice(&episode) },
            ),
            ReducerEffect::ScheduleInterruptAck {
                turn,
                generation,
                operation_id,
                attempt,
                deadline,
            } => Ok(
                EffectStep::Schedule {
                    wait_ms: wait_ms(deadline, now_ms),
                    event: ActorEvent::InterruptDeadline {
                        turn,
                        generation,
                        operation_id,
                        attempt,
                        acknowledgement: true,
                    },
                },
            ),
            ReducerEffect::ScheduleInterruptCompletion {
                turn,
                generation,
                operation_id,
                attempt,
                deadline,
            } => Ok(
                EffectStep::Schedule {
                    wait_ms: wait_ms(deadline, now_ms),
                    event: ActorEvent::InterruptDeadline {
                        turn,
                        generation,
                        operation_id,
                        attempt,
                        acknowledgement: false,
                    },
                },
            ),
            ReducerEffect::ScheduleStartExpiry { request_id, generation, deadline } => Ok(
                EffectStep::Schedule {
                    wait_ms: wait_ms(deadline, now_ms),
                    event: ActorEvent::StartExpiry { request_id, generation },
                },
            ),
            ReducerEffect::ScheduleProvisionalExpiry { turn, generation, terminal, deadline } => Ok(
                EffectStep::Schedule {
                    wait_ms: wait_ms(deadline, now_ms),
                    event: ActorEvent::ProvisionalExpiry { turn, generation, terminal },
                },
            ),
            ReducerEffect::ReadFullRateLimits => self.verify_once(),
            ReducerEffect::VerifyNow => self.verify_once(),
            ReducerEffect::SuspendExternalEngines => Ok(EffectStep::SuspendExternalEngines),
            ReducerEffect::MaintainExternalEngineSuspension { prevent_new_sessions } => Ok(
                EffectStep::MaintainExternalEngineSuspension { prevent_new_sessions },
            ),
            ReducerEffect::ResumeExternalEngines => Ok(EffectStep::ResumeExternalEngines),
            ReducerEffect::PersistDisarmed => {
                let mut changed = *settings;
                changed.armed = false;
                Ok(EffectStep::SaveSettings { settings: changed })
            },
            ReducerEffect::RaiseThresholds { used_percent } => {
                let mut changed = *settings;
                if changed.primary_threshold_percent < used_percent {
                    changed.primary_threshold_percent = used_percent;
                }
                if changed.secondary_threshold_percent < used_percent {
                    changed.secondary_threshold_percent = used_percent;
                }
                Ok(EffectStep::SaveSettings { settings: changed })
            },
            ReducerEffect::PersistAutoRearm { threshold_percent } => {
                let mut changed = *settings;
                changed.armed = true;
                changed.primary_threshold_percent = threshold_percent;
                changed.secondary_threshold_percent = threshold_percent;
                Ok(EffectStep::SaveSettings { settings: changed })
            },
        }
    }

    /// Asks for the limits of the account, read in full.
    pub fn verify_once(&self) -> (r: Result<EffectStep, String>)
        ensures
            match self@.first_associated() {
                Some(workspace_id) => r == Ok::<EffectStep, String>(
                    EffectStep::ReadRateLimits { workspace_id },
                ),
                None => r matches Err(message) && message@ == NOTHING_TO_VERIFY@,
            },
    {
        match self.associated_workspace() {
            Some(workspace_id) => Ok(EffectStep::ReadRateLimits { workspace_id }),
            None => Err(NOTHING_TO_VERIFY.to_owned()),
        }
    }

    /// Takes in a reminder.
    pub fn timer_expired(&mut self, event: ActorEvent, now_ms: i64) -> (step: TimerStep)
        ensures
            reminds(old(self)@, event, now_ms, final(self)@, step),
    {
        match event {
            ActorEvent::FinalizeClosedEpisode { generation } => TimerStep::Apply {
                event: ReducerEvent::FinalizeClosedEpisode { transition_id: generation, now_ms },
            },
            ActorEvent::InterruptDeadline {
                turn,
                generation,
                operation_id,
                attempt,
                acknowledgement,
            } => TimerStep::Apply {
                event: ReducerEvent::InterruptDeadline {
                    turn,
                    generation,
                    operation_id,
                    attempt,
                    acknowledgement,
                    now_ms,
                },
            },
            ActorEvent::StartExpiry { request_id, generation } => TimerStep::Apply {
                event: ReducerEvent::PendingStartExpired { request_id, generation, now_ms },
            },
            ActorEvent::ProvisionalExpiry { turn, generation, terminal } => TimerStep::Apply {
                event: ReducerEvent::ProvisionalExpired { turn, generation, terminal, now_ms },
            },
            ActorEvent::HealthyRevalidate { generation, due_at } => {
                let monitors = match &self.runtime.account {
                    Some(account) => account.phase == QuotaGuardPhase::Monitoring,
                    None => false,
                };
                if monitors && self.runtime.lifecycle_generation == generation && now_ms >= due_at {
                    self.healthy_due = None;
                    TimerStep::Revalidate
                } else {
                    TimerStep::Nothing
                }
            },
        }
    }
}

/// A command from outside.
#[derive(Debug, Clone, Copy, PartialEq, Eq, Structural)]
pub enum QuotaGuardCommand {
    ApplyActionNow,
    KeepWaiting,
    InterruptNow,
    VerifyNow,
    RetryClosed,
}

/// What a command leads to.
pub enum CommandStep {
    /// The state is to be shown.
    Show,
    /// The event is to be applied, and the state shown.
    Apply { event: ReducerEvent },
    /// The limits of the workspace's account are to be read in full and checked, and the state
    /// shown.
    Verify { workspace_id: String },
}

/// How an intervention is resolved.
#[derive(Debug, Clone, Copy, PartialEq, Eq, Structural)]
pub enum Resolution {
    /// The limiter is turned off.
    DisableGuard,
    /// The limits are checked while nothing is admitted.
    RetryClosed,
}

/// Whether a command ends with `r` and leaves the coordinator as `after`.
pub open spec fn commands(
    before: CoordinatorView,
    command: QuotaGuardCommand,
    now_ms: i64,
    after: CoordinatorView,
    r: Result<CommandStep, String>,
) -> bool {
    &&& after == if command == QuotaGuardCommand::RetryClosed {
        CoordinatorView { gate: closed(before.gate), ..before }
    } else {
        before
    }
    &&& match command {
        QuotaGuardCommand::ApplyActionNow => r == Ok::<CommandStep, String>(
            CommandStep::Apply { event: ReducerEvent::ApplyActionNow { now_ms } },
        ),
        QuotaGuardCommand::KeepWaiting | QuotaGuardCommand::InterruptNow => r == Ok::<
            CommandStep,
            String,
        >(CommandStep::Show),
        QuotaGuardCommand::VerifyNow | QuotaGuardCommand::RetryClosed => match before.first_associated() {
            Some(workspace_id) => r == Ok::<CommandStep, String>(
                CommandStep::Verify { workspace_id },
            ),
            None => r matches Err(message) && message@ == NOTHING_TO_VERIFY@,
        },
    }
}

/// The resolution of this name.
pub open spec fn resolution_named(name: Seq<char>) -> Option<Resolution> {
    if name == "disableGuard"@ {
        Some(Resolution::DisableGuard)
    } else if name == "retryClosed"@ {
        Some(Resolution::RetryClosed)
    } else {
        None
    }
}

/// How an intervention is to be resolved.
pub fn quota_guard_resolve_intervention(resolution: &str) -> (r: Result<Resolution, String>)
    ensures
        match resolution_named(resolution@) {
            Some(named) => r == Ok::<Resolution, String>(named),
            None => r matches Err(message) && message@ == "unsupported quota guard resolution"@,
        },
{
    if same_text(resolution, "disableGuard") {
        Ok(Resolution::DisableGuard)
    } else if same_text(resolution, "retryClosed") {
        Ok(Resolution::RetryClosed)
    } else {
        Err("unsupported quota guard resolution".to_owned())
    }
}

/// The event that the limits in `value` were read, or what is wrong with them.
pub open spec fn reads_limits(
    runtime: RuntimeView,
    value: JsonView,
    full_read: bool,
    verification: bool,
    now_ms: i64,
    r: Result<ReducerEvent, String>,
) -> bool {
    let prior = match runtime.account {
        Some(account) => snapshot_view(account.snapshot),
        None => None,
    };
    match rate_limits_in(value, prior, now_ms) {
        Err(reason) => r matches Err(message) && message@ == reason,
        Ok(limits) => r matches Ok(ReducerEvent::Snapshot {
            snapshot,
            full_read: full,
            verification: verified,
            now_ms: at,
        }) && snapshot@ == limits && full == full_read && verified == verification && at == now_ms,
    }
}

/// Why an account is not checked again that is not known.
pub const NO_ACCOUNT_TO_REVALIDATE: &'static str = "quota guard has no account for identity revalidation";

/// Why an account is not checked again that no workspace was verified for.
pub const NO_WORKSPACE_TO_REVALIDATE: &'static str = "quota guard has no associated workspace for identity revalidation";

/// Why an account is not checked again whose workspace is not bound.
pub const NO_BINDING_TO_REVALIDATE: &'static str = "quota guard workspace binding missing for identity revalidation";

/// Why a check fails that finds another account.
pub const IDENTITY_CHANGED_MEANWHILE: &'static str = "strict account identity changed during healthy revalidation";

impl CoordinatorView {
    /// The workspace through which the account is checked, or why it cannot be.
    pub open spec fn revalidates_through(self) -> Result<String, Seq<char>> {
        match self.runtime.account {
            None => Err(NO_ACCOUNT_TO_REVALIDATE@),
            Some(_) => match self.first_associated() {
                None => Err(NO_WORKSPACE_TO_REVALIDATE@),
                Some(workspace_id) => if self.bindings.dom().contains(workspace_id@) {
                    Ok(workspace_id)
                } else {
                    Err(NO_BINDING_TO_REVALIDATE@)
                },
            },
        }
    }
}

impl CoordinatorView {
    /// What is wrong with the owner that a check has found, if anything.
    pub open spec fn check_error(self, workspace_id: Seq<char>, identity: Option<Seq<char>>) -> Option<
        Seq<char>,
    > {
        match self.runtime.account {
            None => Some(NO_ACCOUNT_TO_REVALIDATE@),
            Some(account) => if !self.bindings.dom().contains(workspace_id) {
                Some(NO_BINDING_TO_REVALIDATE@)
            } else if identity is None {
                Some(NO_STRICT_IDENTITY@)
            } else if account.account_key@ != spec_account_key(
                self.bindings[workspace_id].canonical_codex_home@,
                identity->0,
            ) {
                Some(IDENTITY_CHANGED_MEANWHILE@)
            } else {
                None
            },
        }
    }
}

/// Why a change of the owner could not be dealt with.
pub open spec fn revalidation_error(reason: Seq<char>, error: Seq<char>) -> Seq<char> {
    "identity revalidation ("@ + reason + ") failed: "@ + error
}

/// Why a change of the owner could not be dealt with.
pub fn revalidation_failure(reason: &str, error: &str) -> (r: String)
    ensures
        r@ == revalidation_error(reason@, error@),
{
    let mut message = "identity revalidation (".to_owned();
    message.append(reason);
    message.append(") failed: ");
    message.append(error);
    message
}

/// Accepts the report of a start that is to be kept before the request is sent.
pub fn record_pending_start(event: &QuotaGuardEvent) -> (r: Result<(), String>)
    ensures
        r is Ok <==> *event is PendingLocalStart,
        r matches Err(message) ==> message@
            == "quota guard reliable start recording requires PendingLocalStart"@,
{
    match event {
        QuotaGuardEvent::PendingLocalStart { .. } => Ok(()),
        _ => Err("quota guard reliable start recording requires PendingLocalStart".to_owned()),
    }
}

/// Accepts the report of a failed start that is to be kept.
pub fn record_start_failed(event: &QuotaGuardEvent) -> (r: Result<(), String>)
    ensures
        r is Ok <==> *event is StartFailed,
        r matches Err(message) ==> message@
            == "quota guard reliable failure recording requires StartFailed"@,
{
    match event {
        QuotaGuardEvent::StartFailed { .. } => Ok(()),
        _ => Err("quota guard reliable failure recording requires StartFailed".to_owned()),
    }
}

/// The event that follows a request to interrupt a turn.
pub fn interrupt_answered(
    turn: TurnKey,
    generation: u64,
    operation_id: u64,
    attempt: u8,
    accepted: bool,
    now_ms: i64,
) -> (r: ReducerEvent)
    ensures
        r == if accepted {
            ReducerEvent::InterruptAcknowledged { turn, generation, operation_id, attempt, now_ms }
        } else {
            ReducerEvent::InterruptRequestFailed { turn, generation, operation_id, attempt, now_ms }
        },
{
    if accepted {
        ReducerEvent::InterruptAcknowledged { turn, generation, operation_id, attempt, now_ms }
    } else {
        ReducerEvent::InterruptRequestFailed { turn, generation, operation_id, attempt, now_ms }
    }
}

/// The event that follows the reading of an interrupted turn's thread.
pub fn thread_read(
    turn: TurnKey,
    generation: u64,
    operation_id: u64,
    attempt: u8,
    outcome: Result<Json, String>,
    now_ms: i64,
) -> (r: ReducerEvent)
    ensures
        match outcome {
            Ok(thread) => r matches ReducerEvent::InterruptReconciled {
                active_turn_id,
                turn: t,
                generation: g,
                operation_id: o,
                attempt: a,
                now_ms: at,
            } && text_view(active_turn_id) == active_turn(thread@) && t == turn && g == generation
                && o == operation_id && a == attempt && at == now_ms,
            Err(reason) => r == (ReducerEvent::InterruptReconcileFailed {
                turn,
                generation,
                operation_id,
                attempt,
                reason,
                now_ms,
            }),
        },
{
    match outcome {
        Ok(thread) => ReducerEvent::InterruptReconciled {
            active_turn_id: active_turn_id(&thread),
            turn,
            generation,
            operation_id,
            attempt,
            now_ms,
        },
        Err(reason) => ReducerEvent::InterruptReconcileFailed {
            turn,
            generation,
            operation_id,
            attempt,
            reason,
            now_ms,
        },
    }
}

impl Coordinator {
    /// Reads rate limits; gives the event to apply, or what is wrong with them.
    pub fn apply_rate_limits(
        &self,
        value: &Json,
        full_read: bool,
        verification: bool,
        now_ms: i64,
    ) -> (r: Result<ReducerEvent, String>)
        ensures
            reads_limits(self@.runtime, value@, full_read, verification, now_ms, r),
    {
        let prior = match &self.runtime.account {
            Some(account) => account.snapshot.as_ref(),
            None => None,
        };
        match parse_rate_limits(value, prior, now_ms) {
            Ok(snapshot) => Ok(
                ReducerEvent::Snapshot { snapshot, full_read, verification, now_ms },
            ),
            Err(message) => Err(message),
        }
    }

    /// Takes up what was under way before a restart, where an account is known: gives the
    /// event to apply, and the time of the next check where one has to be set up.
    pub fn rehydrate(&mut self, now_ms: i64) -> (r: Option<(Option<i64>, ReducerEvent)>)
        ensures
            match old(self)@.runtime.account {
                Some(_) => {
                    let (after, due) = scheduling(old(self)@, now_ms);
                    final(self)@ == after && r == Some(
                        (due, ReducerEvent::RehydratePendingInterrupts { now_ms }),
                    )
                },
                None => final(self)@ == old(self)@ && r is None,
            },
    {
        if self.runtime.account.is_none() {
            return None;
        }
        let due = self.schedule_healthy_revalidation(now_ms);
        Some((due, ReducerEvent::RehydratePendingInterrupts { now_ms }))
    }

    /// The workspace through which the account is checked, or why it cannot be.
    pub fn healthy_revalidate(&self) -> (r: Result<String, String>)
        ensures
            match self@.revalidates_through() {
                Ok(workspace_id) => r == Ok::<String, String>(workspace_id),
                Err(reason) => r matches Err(message) && message@ == reason,
            },
    {
        if self.runtime.account.is_none() {
            return Err(NO_ACCOUNT_TO_REVALIDATE.to_owned());
        }
        let workspace_id = match self.associated_workspace() {
            Some(workspace_id) => workspace_id,
            None => {
                return Err(NO_WORKSPACE_TO_REVALIDATE.to_owned());
            },
        };
        if self.bindings.get(workspace_id.as_str()).is_none() {
            return Err(NO_BINDING_TO_REVALIDATE.to_owned());
        }
        Ok(workspace_id)
    }

    /// Accepts the owner that a check has found, where the account is still the same.
    pub fn identity_checked(&self, workspace_id: &str, identity: Option<&str>) -> (r: Result<
        (),
        String,
    >)
        ensures
            match self@.check_error(workspace_id@, crate::text::str_view(identity)) {
                None => r == Ok::<(), String>(()),
                Some(reason) => r matches Err(message) && message@ == reason,
            },
    {
        let account = match &self.runtime.account {
            Some(account) => account,
            None => {
                return Err(NO_ACCOUNT_TO_REVALIDATE.to_owned());
            },
        };
        let binding = match self.bindings.get(workspace_id) {
            Some(binding) => binding,
            None => {
                return Err(NO_BINDING_TO_REVALIDATE.to_owned());
            },
        };
        let identity = match identity {
            Some(identity) => identity,
            None => {
                return Err(NO_STRICT_IDENTITY.to_owned());
            },
        };
        let key = account_key(binding.canonical_codex_home.as_str(), identity);
        if same_text(account.account_key.as_str(), key.as_str()) {
            Ok(())
        } else {
            Err(IDENTITY_CHANGED_MEANWHILE.to_owned())
        }
    }

    /// Sets up the next check after one that found nothing, in the same generation.
    pub fn revalidated(&mut self, generation: u64, now_ms: i64) -> (due: Option<i64>)
        ensures
            (final(self)@, due) == if old(self)@.runtime.lifecycle_generation == generation {
                scheduling(old(self)@, now_ms)
            } else {
                (old(self)@, None)
            },
    {
        if self.runtime.lifecycle_generation != generation {
            return None;
        }
        self.schedule_healthy_revalidation(now_ms)
    }

    /// Takes in a command. One to try again closes the process first.
    pub fn handle_command(&mut self, command: QuotaGuardCommand, now_ms: i64) -> (r: Result<
        CommandStep,
        String,
    >)
        ensures
            commands(old(self)@, command, now_ms, final(self)@, r),
    {
        match command {
            QuotaGuardCommand::ApplyActionNow => Ok(
                CommandStep::Apply { event: ReducerEvent::ApplyActionNow { now_ms } },
            ),
            QuotaGuardCommand::KeepWaiting => Ok(CommandStep::Show),
            QuotaGuardCommand::InterruptNow => Ok(CommandStep::Show),
            QuotaGuardCommand::VerifyNow => self.workspace_to_verify(),
            QuotaGuardCommand::RetryClosed => {
                self.gate.set_policy(ProcessPolicy::EnabledClosed);
                self.workspace_to_verify()
            },
        }
    }

    fn workspace_to_verify(&self) -> (r: Result<CommandStep, String>)
        ensures
            match self@.first_associated() {
                Some(workspace_id) => r == Ok::<CommandStep, String>(
                    CommandStep::Verify { workspace_id },
                ),
                None => r matches Err(message) && message@ == NOTHING_TO_VERIFY@,
            },
    {
        match self.associated_workspace() {
            Some(workspace_id) => Ok(CommandStep::Verify { workspace_id }),
            None => Err(NOTHING_TO_VERIFY.to_owned()),
        }
    }

    /// What the limiter shows of itself.
    pub fn public_state(&self, now_ms: i64) -> (r: QuotaGuardPublicState)
        ensures
            r@ == shown_state(
                self@.runtime,
                self@.gate,
                self@.configured_workspaces,
                self@.bindings,
                now_ms,
            ),
    {
        public_state_with_bindings(
            &self.runtime,
            &self.gate,
            &self.configured_workspaces,
            &self.bindings,
            now_ms,
        )
    }

    /// Sets which workspaces are shown, bound or not.
    pub fn set_configured_workspaces(&mut self, workspace_ids: &Vec<String>)
        ensures
            final(self)@ == (CoordinatorView {
                configured_workspaces: final(self)@.configured_workspaces,
                ..old(self)@
            }),
            forall|id: Seq<char>|
                final(self)@.configured_workspaces.contains(id) <==> text_views(
                    workspace_ids@,
                ).contains(id),
    {
        let mut configured = TextSet::new();
        let ghost all = text_views(workspace_ids@);
        let mut i: usize = 0;
        while i < workspace_ids.len()
            invariant
                i <= workspace_ids@.len(),
                all == text_views(workspace_ids@),
                forall|id: Seq<char>|
                    configured@.contains(id) <==> all.take(i as int).contains(id),
            decreases workspace_ids@.len() - i,
        {
            let ghost before = configured@;
            configured.insert(workspace_ids[i].as_str());
            proof {
                let added = workspace_ids@[i as int]@;
                assert(all.take(i + 1) =~= all.take(i as int).push(added));
                assert forall|id: Seq<char>|
                    configured@.contains(id) <==> all.take(i + 1).contains(id) by {
                    lemma_push_contains(all.take(i as int), added, id);
                    lemma_push_contains(before, added, id);
                    assert(before.contains(id) <==> all.take(i as int).contains(id));
                }
            }
            i += 1;
        }
        assert(all.take(all.len() as int) =~= all);
        self.configured_workspaces = configured;
    }
}

proof fn lemma_push_contains(texts: Seq<Seq<char>>, added: Seq<char>, text: Seq<char>)
    ensures
        texts.push(added).contains(text) <==> texts.contains(text) || added == text,
{
    let after = texts.push(added);
    if texts.contains(text) {
        let i = choose|i: int| 0 <= i < texts.len() && texts[i] == text;
        assert(after[i] == text);
    }
    if added == text {
        assert(after[texts.len() as int] == text);
    }
    if after.contains(text) {
        let i = choose|i: int| 0 <= i < after.len() && after[i] == text;
        if i < texts.len() {
            assert(texts[i] == text);
        }
    }
}

} // verus!
