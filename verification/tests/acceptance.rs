use codex_usage_limiter::collections::{KeyedList, TextSet};
use codex_usage_limiter::coordinator::{interrupt_answered, thread_read, Coordinator};
use codex_usage_limiter::gate::{ProcessGate, ProcessPolicy};
use codex_usage_limiter::json::{parse_json, Json};
use codex_usage_limiter::model::{
    AccountRuntime, EpisodeKey, PendingInterrupt, PendingLocalStart, QuotaGuardPhase, QuotaGuardRuntimeState,
    RateLimitSnapshot, RateLimitWindow, TerminalObservation, TurnKey, UnmatchedStartedTurn,
};
use codex_usage_limiter::public_state::{admissions, AdmissionProjection, Binding};
use codex_usage_limiter::reducer::{reduce, ReducerEffect, ReducerEvent};
use codex_usage_limiter::settings::{QuotaAction, QuotaGuardSettings};

const NOW: i64 = 1_000_000;

fn snapshot(used_percent: u8, reset_at: i64) -> RateLimitSnapshot {
    RateLimitSnapshot {
        primary: Some(RateLimitWindow {
            used_percent,
            window_duration_mins: Some(60),
            reset_at: Some(reset_at),
        }),
        secondary: None,
        credits: None,
        plan_type: None,
        rate_limit_reached_type: None,
        observed_at: NOW,
    }
}

fn turn(turn_id: &str) -> TurnKey {
    TurnKey {
        session_epoch: "epoch-1".into(),
        workspace_id: "workspace-1".into(),
        thread_id: "thread-1".into(),
        turn_id: turn_id.into(),
    }
}

fn pending_start(request_id: u64, generation: u64) -> PendingLocalStart {
    PendingLocalStart {
        request_id,
        session_epoch: "epoch-1".into(),
        workspace_id: "workspace-1".into(),
        request_thread_id: Some("thread-1".into()),
        expected_thread_id: Some("thread-1".into()),
        request_kind: "turn/start".into(),
        generation,
        response_thread_id: None,
        response_received_at: None,
        disposition: None,
        registered_at: NOW,
    }
}

fn json(text: &str) -> Json {
    parse_json(text).expect("valid JSON")
}

fn pending_for(runtime: &QuotaGuardRuntimeState, turn: &TurnKey) -> PendingInterrupt {
    let pending = runtime
        .account
        .as_ref()
        .expect("account")
        .pending_interrupt_index
        .iter()
        .find(|pending| &pending.turn == turn)
        .expect("pending interrupt");
    PendingInterrupt {
        turn: pending.turn.clone(),
        generation: pending.generation,
        operation_id: pending.operation_id,
        attempt: pending.attempt,
        acknowledged: pending.acknowledged,
        ack_deadline: pending.ack_deadline,
        completion_deadline: pending.completion_deadline,
    }
}

/// Applies events one after the other and keeps the effects for inspection.
struct QuotaGuardHarness {
    runtime: QuotaGuardRuntimeState,
    settings: QuotaGuardSettings,
    now_ms: i64,
    effects: Vec<ReducerEffect>,
    configured_workspaces: TextSet,
    bindings: KeyedList<Binding>,
}

impl QuotaGuardHarness {
    fn new(settings: QuotaGuardSettings, now_ms: i64) -> Self {
        Self::from_persisted(settings, QuotaGuardRuntimeState::default(), now_ms)
    }
    fn from_persisted(
        settings: QuotaGuardSettings,
        runtime: QuotaGuardRuntimeState,
        now_ms: i64,
    ) -> Self {
        Self {
            runtime,
            settings,
            now_ms,
            effects: Vec::new(),
            configured_workspaces: TextSet::new(),
            bindings: KeyedList::new(),
        }
    }
    fn dispatch(&mut self, event: ReducerEvent) {
        let runtime = std::mem::take(&mut self.runtime);
        let (next, effects) = reduce(runtime, event, &self.settings);
        self.runtime = next;
        self.effects.extend(effects);
    }
    fn advance_to(&mut self, now_ms: i64) {
        assert!(now_ms >= self.now_ms, "test clock cannot move backward");
        self.now_ms = now_ms;
    }
    fn take_effects(&mut self) -> Vec<ReducerEffect> {
        std::mem::take(&mut self.effects)
    }
    fn restart(self) -> Self {
        Self::from_persisted(self.settings, self.runtime, self.now_ms)
    }
    fn configure_workspaces(&mut self, workspace_ids: [String; 2]) {
        for workspace_id in workspace_ids {
            self.configured_workspaces.insert(&workspace_id);
        }
    }
    fn bind_workspace(&mut self, workspace_id: String, session_epoch: String) {
        self.configured_workspaces.insert(&workspace_id);
        self.bindings.insert(
            &workspace_id,
            Binding { session_epoch, canonical_codex_home: "home".into() },
        );
    }
    fn disconnect_workspace(&mut self, workspace_id: &str) {
        self.bindings.remove(workspace_id);
    }
    fn public_admission(&self) -> Admissions {
        let mut gate = ProcessGate::default();
        gate.set_policy(ProcessPolicy::EnabledOpen);
        for at in 0..self.bindings.len() {
            let workspace_id = self.bindings.key(at).to_string();
            let epoch = self.bindings.get(&workspace_id).expect("binding").session_epoch.clone();
            gate.register_closed_epoch(epoch.clone(), workspace_id.clone());
            gate.set_epoch_open(&epoch, &workspace_id, true);
        }
        Admissions(admissions(&gate, &self.configured_workspaces, &self.bindings))
    }
    fn overflow(&mut self) {
        let mut coordinator = Coordinator::default();
        std::mem::swap(&mut coordinator.runtime, &mut self.runtime);
        coordinator.event_lost();
        assert!(!coordinator.gate.status(None, "workspace").open);
        assert!(coordinator.overflow(self.now_ms));
        std::mem::swap(&mut coordinator.runtime, &mut self.runtime);
    }

    /// Runs only what goes to the server, each time with this reply, and applies what follows.
    /// Gives the turns that the server was asked about.
    fn execute_control_effects(&mut self, reply: Result<Json, String>) -> Vec<TurnKey> {
        let mut calls = Vec::new();
        for effect in self.take_effects() {
            match effect {
                ReducerEffect::Interrupt { turn, generation, operation_id, attempt } => {
                    calls.push(turn.clone());
                    self.dispatch(interrupt_answered(
                        turn,
                        generation,
                        operation_id,
                        attempt,
                        reply.is_ok(),
                        self.now_ms,
                    ));
                }
                ReducerEffect::ReconcileThread { turn, generation, operation_id, attempt } => {
                    calls.push(turn.clone());
                    self.dispatch(thread_read(
                        turn,
                        generation,
                        operation_id,
                        attempt,
                        reply.clone(),
                        self.now_ms,
                    ));
                }
                other => self.effects.push(other),
            }
        }
        calls
    }
}

struct Admissions(KeyedList<AdmissionProjection>);

impl std::ops::Index<&str> for Admissions {
    type Output = AdmissionProjection;

    fn index(&self, workspace_id: &str) -> &AdmissionProjection {
        self.0.get(workspace_id).expect("workspace is shown")
    }
}

#[test]
fn stale_async_start_generation_cannot_survive_disable_reenable() {
    let settings = QuotaGuardSettings::default();
    let (runtime, _) = reduce(
        Default::default(),
        ReducerEvent::Enable {
            account_key: "account".into(),
            now_ms: NOW,
        },
        &settings,
    );
    let old_generation = runtime.lifecycle_generation;
    let (runtime, _) = reduce(runtime, ReducerEvent::Disable { now_ms: NOW + 1 }, &settings);
    let (runtime, _) = reduce(
        runtime,
        ReducerEvent::Enable {
            account_key: "account".into(),
            now_ms: NOW + 2,
        },
        &settings,
    );

    let (runtime, effects) = reduce(
        runtime,
        ReducerEvent::PendingStartRecorded {
            start: pending_start(7, old_generation),
            now_ms: NOW + 3,
        },
        &settings,
    );

    assert!(effects.is_empty());
    assert!(runtime
        .account
        .expect("enabled account")
        .pending_local_starts
        .is_empty());
}

#[test]
fn terminal_completion_consumes_only_its_exact_pending_interrupt() {
    let mut settings = QuotaGuardSettings::default();
    settings.action = QuotaAction::Interrupt;
    let (mut runtime, _) = reduce(
        Default::default(),
        ReducerEvent::Enable {
            account_key: "account".into(),
            now_ms: NOW,
        },
        &settings,
    );
    let first = turn("turn-1");
    let second = turn("turn-2");
    runtime
        .account
        .as_mut()
        .expect("enabled account")
        .local_turn_registry = vec![first.clone(), second.clone()];
    let (runtime, _) = reduce(
        runtime,
        ReducerEvent::Snapshot { snapshot: snapshot(89, 2_000), full_read: true, verification: false, now_ms: NOW },
        &settings,
    );
    let (runtime, _) = reduce(
        runtime,
        ReducerEvent::Snapshot { snapshot: snapshot(90, 2_000), full_read: true, verification: false, now_ms: NOW },
        &settings,
    );
    let generation = runtime.lifecycle_generation;
    let (runtime, effects) = reduce(
        runtime,
        ReducerEvent::FinalizeClosedEpisode {
            transition_id: generation,
            now_ms: NOW,
        },
        &settings,
    );
    assert_eq!(
        effects
            .iter()
            .filter(|effect| matches!(effect, ReducerEffect::Interrupt { .. }))
            .count(),
        2
    );

    let (runtime, effects) = reduce(
        runtime,
        ReducerEvent::TurnTerminal {
            turn: first.clone(),
            status: "interrupted".into(),
            error: None,
            now_ms: NOW + 1,
        },
        &settings,
    );
    assert!(effects.is_empty(), "the other exact turn remains pending");
    let account = runtime.account.expect("account remains enforcing");
    assert_eq!(account.phase, QuotaGuardPhase::Tripped);
    assert_eq!(account.pending_interrupt_index.len(), 1);
    assert!(account.pending_interrupt_index.iter().any(|pending| pending.turn == second));
    assert!(!account.pending_interrupt_index.iter().any(|pending| pending.turn == first));
}

#[test]
fn unmatched_review_and_terminal_buffers_are_bounded() {
    let mut account = AccountRuntime::new("account".into(), NOW);
    for sequence in 0..32 {
        let observed_turn = turn(&format!("review-{sequence}"));
        account
            .push_unmatched_started_turn(UnmatchedStartedTurn {
                turn: observed_turn.clone(),
                generation: 1,
                observed_at: NOW + sequence,
            })
            .expect("buffer remains bounded before capacity");
        account
            .push_terminal_observation(TerminalObservation {
                turn: observed_turn,
                generation: 1,
                status: "completed".into(),
                error: None,
                observed_at: NOW + sequence,
            })
            .expect("buffer remains bounded before capacity");
    }

    assert!(account
        .push_unmatched_started_turn(UnmatchedStartedTurn {
            turn: turn("overflow-review"),
            generation: 1,
            observed_at: NOW + 33,
        })
        .is_err());
    assert!(account
        .push_terminal_observation(TerminalObservation {
            turn: turn("overflow-terminal"),
            generation: 1,
            status: "completed".into(),
            error: None,
            observed_at: NOW + 33,
        })
        .is_err());
    assert_eq!(account.unmatched_started_turns.len(), 32);
    assert_eq!(account.terminal_observations.len(), 32);
}

#[test]
fn ordinary_response_then_notification_promotes_exact_owned_turn() {
    let settings = QuotaGuardSettings::default();
    let (runtime, _) = reduce(
        Default::default(),
        ReducerEvent::Enable {
            account_key: "account".into(),
            now_ms: NOW,
        },
        &settings,
    );
    let generation = runtime.lifecycle_generation;
    let (runtime, _) = reduce(
        runtime,
        ReducerEvent::PendingStartRecorded {
            start: pending_start(11, generation),
            now_ms: NOW,
        },
        &settings,
    );
    let (runtime, _) = reduce(
        runtime,
        ReducerEvent::StartResponse {
            request_id: 11,
            session_epoch: "epoch-1".into(),
            workspace_id: "workspace-1".into(),
            thread_id: Some("thread-1".into()),
            now_ms: NOW + 1,
        },
        &settings,
    );
    let (runtime, effects) = reduce(
        runtime,
        ReducerEvent::TurnStarted {
            turn: turn("ordinary-turn"),
            now_ms: NOW + 2,
        },
        &settings,
    );

    assert!(effects.is_empty());
    let account = runtime.account.expect("account remains active");
    assert!(account.pending_local_starts.is_empty());
    assert_eq!(account.local_turn_registry, vec![turn("ordinary-turn")]);
}

#[test]
fn review_notification_before_response_is_matched_without_guessing_a_turn_id() {
    let settings = QuotaGuardSettings::default();
    let (runtime, _) = reduce(
        Default::default(),
        ReducerEvent::Enable {
            account_key: "account".into(),
            now_ms: NOW,
        },
        &settings,
    );
    let generation = runtime.lifecycle_generation;
    let mut review = pending_start(12, generation);
    review.request_kind = "review/start".into();
    review.request_thread_id = None;
    review.expected_thread_id = None;
    let (runtime, _) = reduce(
        runtime,
        ReducerEvent::PendingStartRecorded {
            start: review,
            now_ms: NOW,
        },
        &settings,
    );
    let review_turn = TurnKey {
        session_epoch: "epoch-1".into(),
        workspace_id: "workspace-1".into(),
        thread_id: "review-thread".into(),
        turn_id: "review-turn".into(),
    };
    let (runtime, _) = reduce(
        runtime,
        ReducerEvent::TurnStarted {
            turn: review_turn.clone(),
            now_ms: NOW + 1,
        },
        &settings,
    );
    assert_eq!(
        runtime
            .account
            .as_ref()
            .expect("account")
            .unmatched_started_turns
            .len(),
        1
    );
    let (runtime, effects) = reduce(
        runtime,
        ReducerEvent::StartResponse {
            request_id: 12,
            session_epoch: "epoch-1".into(),
            workspace_id: "workspace-1".into(),
            thread_id: Some("review-thread".into()),
            now_ms: NOW + 2,
        },
        &settings,
    );

    assert!(effects.is_empty());
    let account = runtime.account.expect("account");
    assert!(account.pending_local_starts.is_empty());
    assert!(account.unmatched_started_turns.is_empty());
    assert_eq!(account.local_turn_registry, vec![review_turn]);
}

#[test]
fn terminal_without_an_exact_started_notification_cannot_claim_pending_ownership() {
    let settings = QuotaGuardSettings::default();
    let (runtime, _) = reduce(
        Default::default(),
        ReducerEvent::Enable {
            account_key: "account".into(),
            now_ms: NOW,
        },
        &settings,
    );
    let generation = runtime.lifecycle_generation;
    let (runtime, _) = reduce(
        runtime,
        ReducerEvent::PendingStartRecorded {
            start: pending_start(13, generation),
            now_ms: NOW,
        },
        &settings,
    );
    let completed_turn = turn("already-completed");
    let (runtime, _) = reduce(
        runtime,
        ReducerEvent::TurnTerminal {
            turn: completed_turn,
            status: "completed".into(),
            error: None,
            now_ms: NOW + 1,
        },
        &settings,
    );
    let (runtime, effects) = reduce(
        runtime,
        ReducerEvent::StartResponse {
            request_id: 13,
            session_epoch: "epoch-1".into(),
            workspace_id: "workspace-1".into(),
            thread_id: Some("thread-1".into()),
            now_ms: NOW + 2,
        },
        &settings,
    );

    assert!(effects.is_empty());
    let account = runtime.account.expect("account");
    assert_eq!(account.pending_local_starts.len(), 1);
    assert!(account.unmatched_started_turns.is_empty());
    assert!(account.terminal_observations.is_empty());
    assert!(account.local_turn_registry.is_empty());
}

#[test]
fn enforcing_start_confirmation_expiry_fails_closed() {
    let mut settings = QuotaGuardSettings::default();
    settings.action = QuotaAction::Interrupt;
    let (runtime, _) = reduce(
        Default::default(),
        ReducerEvent::Enable {
            account_key: "account".into(),
            now_ms: NOW,
        },
        &settings,
    );
    let (runtime, _) = reduce(
        runtime,
        ReducerEvent::Snapshot { snapshot: snapshot(89, 2_000), full_read: true, verification: false, now_ms: NOW },
        &settings,
    );
    let (runtime, _) = reduce(
        runtime,
        ReducerEvent::Snapshot { snapshot: snapshot(90, 2_000), full_read: true, verification: false, now_ms: NOW + 1 },
        &settings,
    );
    let generation = runtime.lifecycle_generation;
    let (runtime, _) = reduce(
        runtime,
        ReducerEvent::PendingStartRecorded {
            start: pending_start(14, generation),
            now_ms: NOW + 2,
        },
        &settings,
    );
    let (runtime, _) = reduce(
        runtime,
        ReducerEvent::PendingStartExpired {
            request_id: 14,
            generation,
            now_ms: NOW + 10_002,
        },
        &settings,
    );

    let account = runtime.account.expect("account");
    assert_eq!(account.phase, QuotaGuardPhase::InterventionRequired);
    assert!(
        account
            .last_error
            .as_deref()
            .is_some_and(|message| message.contains("confirmation expired"))
    );
}

#[test]
fn interrupt_timeout_reconciles_retries_once_then_requires_intervention() {
    let mut settings = QuotaGuardSettings::default();
    settings.action = QuotaAction::Interrupt;
    let target = turn("retry-turn");
    let (mut runtime, _) = reduce(
        Default::default(),
        ReducerEvent::Enable {
            account_key: "account".into(),
            now_ms: NOW,
        },
        &settings,
    );
    runtime
        .account
        .as_mut()
        .expect("account")
        .local_turn_registry
        .push(target.clone());
    let (runtime, _) = reduce(
        runtime,
        ReducerEvent::Snapshot { snapshot: snapshot(89, 2_000), full_read: true, verification: false, now_ms: NOW },
        &settings,
    );
    let (runtime, _) = reduce(
        runtime,
        ReducerEvent::Snapshot { snapshot: snapshot(90, 2_000), full_read: true, verification: false, now_ms: NOW + 1 },
        &settings,
    );
    let generation = runtime.lifecycle_generation;
    let (runtime, _) = reduce(
        runtime,
        ReducerEvent::FinalizeClosedEpisode {
            transition_id: generation,
            now_ms: NOW + 1,
        },
        &settings,
    );
    let pending = pending_for(&runtime, &target);
    let (runtime, effects) = reduce(
        runtime,
        ReducerEvent::InterruptDeadline {
            turn: target.clone(),
            generation: pending.generation,
            operation_id: pending.operation_id,
            attempt: pending.attempt,
            acknowledgement: true,
            now_ms: pending.ack_deadline,
        },
        &settings,
    );
    assert!(effects.iter().any(|effect| {
        matches!(
            effect,
            ReducerEffect::ReconcileThread {
                turn,
                operation_id,
                attempt,
                ..
            } if turn == &target && *operation_id == pending.operation_id && *attempt == 1
        )
    }));
    let (runtime, effects) = reduce(
        runtime,
        ReducerEvent::InterruptReconciled {
            turn: target.clone(),
            generation: pending.generation,
            operation_id: pending.operation_id,
            attempt: 1,
            active_turn_id: Some("retry-turn".into()),
            now_ms: NOW + 10_001,
        },
        &settings,
    );
    let retry = pending_for(&runtime, &target);
    assert_eq!(retry.attempt, 2);
    assert!(effects.iter().any(|effect| {
        matches!(
            effect,
            ReducerEffect::Interrupt {
                turn,
                operation_id,
                attempt: 2,
                ..
            } if turn == &target && *operation_id == retry.operation_id
        )
    }));
    let (runtime, _) = reduce(
        runtime,
        ReducerEvent::InterruptReconciled {
            turn: target,
            generation: retry.generation,
            operation_id: retry.operation_id,
            attempt: 2,
            active_turn_id: Some("retry-turn".into()),
            now_ms: NOW + 20_001,
        },
        &settings,
    );
    assert_eq!(
        runtime.account.expect("account").phase,
        QuotaGuardPhase::InterventionRequired
    );
}

#[test]
fn completion_before_ack_removes_pending_interrupt_and_late_ack_is_inert() {
    let mut settings = QuotaGuardSettings::default();
    settings.action = QuotaAction::Interrupt;
    let target = turn("terminal-first");
    let (mut runtime, _) = reduce(
        Default::default(),
        ReducerEvent::Enable {
            account_key: "account".into(),
            now_ms: NOW,
        },
        &settings,
    );
    runtime
        .account
        .as_mut()
        .expect("account")
        .local_turn_registry
        .push(target.clone());
    let (runtime, _) = reduce(
        runtime,
        ReducerEvent::Snapshot { snapshot: snapshot(89, 2_000), full_read: true, verification: false, now_ms: NOW },
        &settings,
    );
    let (runtime, _) = reduce(
        runtime,
        ReducerEvent::Snapshot { snapshot: snapshot(90, 2_000), full_read: true, verification: false, now_ms: NOW + 1 },
        &settings,
    );
    let generation = runtime.lifecycle_generation;
    let (runtime, _) = reduce(
        runtime,
        ReducerEvent::FinalizeClosedEpisode {
            transition_id: generation,
            now_ms: NOW + 1,
        },
        &settings,
    );
    let pending = pending_for(&runtime, &target);
    let (runtime, _) = reduce(
        runtime,
        ReducerEvent::TurnTerminal {
            turn: target.clone(),
            status: "interrupted".into(),
            error: None,
            now_ms: NOW + 2,
        },
        &settings,
    );
    let (runtime, effects) = reduce(
        runtime,
        ReducerEvent::InterruptAcknowledged {
            turn: target,
            generation: pending.generation,
            operation_id: pending.operation_id,
            attempt: pending.attempt,
            now_ms: NOW + 3,
        },
        &settings,
    );

    assert!(effects.is_empty());
    let account = runtime.account.expect("account");
    assert!(account.pending_interrupt_index.is_empty());
    assert_eq!(account.phase, QuotaGuardPhase::Tripped);
}

#[test]
fn restart_preserves_pending_exact_turn_and_does_not_replay_prior_effects() {
    let mut settings = QuotaGuardSettings::default();
    settings.action = QuotaAction::Interrupt;
    let target = turn("restart-turn");
    let mut harness = QuotaGuardHarness::new(settings, NOW);
    harness.dispatch(ReducerEvent::Enable {
        account_key: "account".into(),
        now_ms: NOW,
    });
    harness.runtime.account.as_mut().expect("account").local_turn_registry = vec![target.clone()];
    harness.dispatch(ReducerEvent::Snapshot { snapshot: snapshot(89, 2_000), full_read: true, verification: false, now_ms: NOW });
    harness.dispatch(ReducerEvent::Snapshot { snapshot: snapshot(90, 2_000), full_read: true, verification: false, now_ms: NOW + 1 });
    let generation = harness.runtime.lifecycle_generation;
    harness.dispatch(ReducerEvent::FinalizeClosedEpisode {
        transition_id: generation,
        now_ms: NOW + 1,
    });
    let pending_before_restart = pending_for(&harness.runtime, &target);
    let effects_before_restart = harness.take_effects();
    assert!(effects_before_restart.iter().any(
        |effect| matches!(effect, ReducerEffect::Interrupt { turn, .. } if turn == &target)
    ));

    let mut restarted = harness.restart();
    let account = restarted.runtime.account.as_ref().expect("persisted account");
    assert_eq!(account.phase, QuotaGuardPhase::Tripped);
    assert_eq!(
        account.pending_interrupt_index.iter().find(|pending| pending.turn == target),
        Some(&pending_before_restart)
    );
    assert!(restarted.take_effects().is_empty(), "restart must reconcile, not replay an old effect");
}

#[test]
fn control_effect_runner_acknowledges_only_the_persisted_exact_interrupt() {
    let mut settings = QuotaGuardSettings::default();
    settings.action = QuotaAction::Interrupt;
    let target = turn("controlled-turn");
    let mut harness = QuotaGuardHarness::new(settings, NOW);
    harness.dispatch(ReducerEvent::Enable {
        account_key: "account".into(),
        now_ms: NOW,
    });
    harness.runtime.account.as_mut().expect("account").local_turn_registry = vec![target.clone()];
    harness.dispatch(ReducerEvent::Snapshot { snapshot: snapshot(89, 2_000), full_read: true, verification: false, now_ms: NOW });
    harness.dispatch(ReducerEvent::Snapshot { snapshot: snapshot(90, 2_000), full_read: true, verification: false, now_ms: NOW + 1 });
    let generation = harness.runtime.lifecycle_generation;
    harness.dispatch(ReducerEvent::FinalizeClosedEpisode {
        transition_id: generation,
        now_ms: NOW + 1,
    });

    let calls = harness.execute_control_effects(Ok(Json::Null));

    // The interrupt of the trip itself is not a persisted one, so its answer changes nothing.
    assert_eq!(calls, vec![target.clone(), target.clone()]);
    let pending = pending_for(&harness.runtime, &target);
    assert_eq!(pending.generation, generation);
    assert!(pending.acknowledged);
    assert!(pending.completion_deadline.is_some());
    let scheduled: Vec<ReducerEffect> = harness
        .take_effects()
        .into_iter()
        .filter(|effect| matches!(effect, ReducerEffect::ScheduleInterruptCompletion { .. }))
        .collect();
    assert_eq!(scheduled.len(), 1);
    assert!(scheduled.iter().any(|effect| {
        matches!(
            effect,
            ReducerEffect::ScheduleInterruptCompletion {
                turn,
                operation_id: scheduled_operation,
                attempt: scheduled_attempt,
                ..
            } if turn == &target
                && *scheduled_operation == pending.operation_id
                && *scheduled_attempt == pending.attempt
        )
    }));
}

#[test]
fn a_thread_without_the_turn_ends_its_pursuit() {
    let mut settings = QuotaGuardSettings::default();
    settings.action = QuotaAction::Block;
    let target = turn("gone-turn");
    let mut harness = QuotaGuardHarness::new(settings, NOW);
    harness.dispatch(ReducerEvent::Enable {
        account_key: "account".into(),
        now_ms: NOW,
    });
    harness.runtime.account.as_mut().expect("account").local_turn_registry = vec![target.clone()];
    harness.dispatch(ReducerEvent::Snapshot { snapshot: snapshot(90, 2_000), full_read: true, verification: false, now_ms: NOW });
    let generation = harness.runtime.lifecycle_generation;
    harness.dispatch(ReducerEvent::FinalizeClosedEpisode { transition_id: generation, now_ms: NOW });
    harness.take_effects();
    harness.dispatch(ReducerEvent::RehydratePendingInterrupts { now_ms: NOW + 1 });
    harness.execute_control_effects(Ok(json(r#"{"result":{"thread":{"activeTurnId":"another"}}}"#)));

    let account = harness.runtime.account.as_ref().expect("account");
    assert!(account.pending_interrupt_index.is_empty());
    assert!(account.local_turn_registry.is_empty());
    assert_eq!(account.phase, QuotaGuardPhase::Tripped);
}

#[test]
fn event_queue_overflow_fails_closed_and_requires_reconciliation() {
    let mut harness = QuotaGuardHarness::new(QuotaGuardSettings::default(), NOW);
    harness.dispatch(ReducerEvent::Enable {
        account_key: "account".into(),
        now_ms: NOW,
    });
    harness.take_effects();
    harness.advance_to(NOW + 1);
    harness.overflow();

    let account = harness.runtime.account.as_ref().expect("guarded account");
    assert_eq!(account.phase, QuotaGuardPhase::InterventionRequired);
    assert!(!account.monitor_healthy);
    assert_eq!(account.last_error.as_deref(), Some("event channel overflow"));
    assert!(
        harness.take_effects().is_empty(),
        "an overflow must fail closed rather than execute an uncorrelated action"
    );
}

#[test]
fn configured_workspaces_remain_visible_through_disconnect_and_reconnect() {
    let mut harness = QuotaGuardHarness::new(QuotaGuardSettings::default(), NOW);
    harness.configure_workspaces(["workspace-a".to_string(), "workspace-b".to_string()]);

    let initial = harness.public_admission();
    assert_eq!(initial["workspace-a"].reason, "workspaceUnbound");
    assert_eq!(initial["workspace-b"].reason, "workspaceUnbound");
    assert!(!initial["workspace-a"].open);

    harness.bind_workspace("workspace-a".into(), "epoch-1".into());
    let connected = harness.public_admission();
    assert_eq!(connected["workspace-a"].session_epoch.as_deref(), Some("epoch-1"));
    assert!(connected["workspace-a"].open);
    assert_eq!(connected["workspace-b"].reason, "workspaceUnbound");

    harness.disconnect_workspace("workspace-a");
    let disconnected = harness.public_admission();
    assert_eq!(disconnected["workspace-a"].reason, "workspaceUnbound");
    assert!(!disconnected["workspace-a"].open);

    harness.bind_workspace("workspace-a".into(), "epoch-2".into());
    let reconnected = harness.public_admission();
    assert_eq!(reconnected["workspace-a"].session_epoch.as_deref(), Some("epoch-2"));
    assert!(reconnected["workspace-a"].open);
}

#[test]
fn stale_or_early_interrupt_deadlines_cannot_trigger_extra_reconciliation() {
    let mut settings = QuotaGuardSettings::default();
    settings.action = QuotaAction::Interrupt;
    let target = turn("deadline-turn");
    let mut harness = QuotaGuardHarness::new(settings, NOW);
    harness.dispatch(ReducerEvent::Enable {
        account_key: "account".into(),
        now_ms: NOW,
    });
    harness.runtime.account.as_mut().expect("account").local_turn_registry = vec![target.clone()];
    harness.dispatch(ReducerEvent::Snapshot { snapshot: snapshot(89, 2_000), full_read: true, verification: false, now_ms: NOW });
    harness.dispatch(ReducerEvent::Snapshot { snapshot: snapshot(90, 2_000), full_read: true, verification: false, now_ms: NOW + 1 });
    let generation = harness.runtime.lifecycle_generation;
    harness.dispatch(ReducerEvent::FinalizeClosedEpisode {
        transition_id: generation,
        now_ms: NOW + 1,
    });
    let initial = pending_for(&harness.runtime, &target);
    harness.take_effects();

    harness.dispatch(ReducerEvent::InterruptAcknowledged {
        turn: target.clone(),
        generation: initial.generation,
        operation_id: initial.operation_id,
        attempt: initial.attempt,
        now_ms: NOW + 2,
    });
    let acknowledged = pending_for(&harness.runtime, &target);
    let completion_deadline = acknowledged
        .completion_deadline
        .expect("ack persists a completion deadline");
    harness.take_effects();

    harness.dispatch(ReducerEvent::InterruptDeadline {
        turn: target.clone(),
        generation: initial.generation,
        operation_id: initial.operation_id,
        attempt: initial.attempt,
        acknowledgement: true,
        now_ms: initial.ack_deadline,
    });
    assert!(
        harness.take_effects().is_empty(),
        "the stale acknowledgement timer must not reconcile after acknowledgement"
    );

    harness.dispatch(ReducerEvent::InterruptDeadline {
        turn: target.clone(),
        generation: acknowledged.generation,
        operation_id: acknowledged.operation_id,
        attempt: acknowledged.attempt,
        acknowledgement: false,
        now_ms: completion_deadline - 1,
    });
    harness.dispatch(ReducerEvent::InterruptDeadline {
        turn: target.clone(),
        generation: acknowledged.generation,
        operation_id: acknowledged.operation_id + 1,
        attempt: acknowledged.attempt,
        acknowledgement: false,
        now_ms: completion_deadline,
    });
    assert!(
        harness.take_effects().is_empty(),
        "early or fabricated completion timers must not reconcile a live turn"
    );

    harness.dispatch(ReducerEvent::InterruptDeadline {
        turn: target.clone(),
        generation: acknowledged.generation,
        operation_id: acknowledged.operation_id,
        attempt: acknowledged.attempt,
        acknowledgement: false,
        now_ms: completion_deadline,
    });
    assert!(harness.take_effects().iter().any(|effect| {
        matches!(
            effect,
            ReducerEffect::ReconcileThread {
                turn,
                operation_id,
                attempt,
                ..
            } if turn == &target
                && *operation_id == acknowledged.operation_id
                && *attempt == acknowledged.attempt
        )
    }));
}

#[test]
fn stale_terminal_cannot_consume_a_new_unmatched_review_turn() {
    let settings = QuotaGuardSettings::default();
    let (runtime, _) = reduce(
        Default::default(),
        ReducerEvent::Enable {
            account_key: "account".into(),
            now_ms: NOW,
        },
        &settings,
    );
    let generation = runtime.lifecycle_generation;
    let mut review = pending_start(15, generation);
    review.request_kind = "review/start".into();
    review.request_thread_id = None;
    review.expected_thread_id = None;
    let (runtime, _) = reduce(
        runtime,
        ReducerEvent::PendingStartRecorded {
            start: review,
            now_ms: NOW,
        },
        &settings,
    );
    let new_turn = TurnKey {
        session_epoch: "epoch-1".into(),
        workspace_id: "workspace-1".into(),
        thread_id: "review-thread".into(),
        turn_id: "new-turn".into(),
    };
    let stale_turn = TurnKey {
        turn_id: "old-turn".into(),
        ..new_turn.clone()
    };
    let (runtime, _) = reduce(
        runtime,
        ReducerEvent::TurnStarted {
            turn: new_turn.clone(),
            now_ms: NOW + 1,
        },
        &settings,
    );
    let (runtime, _) = reduce(
        runtime,
        ReducerEvent::TurnTerminal {
            turn: stale_turn,
            status: "completed".into(),
            error: None,
            now_ms: NOW + 2,
        },
        &settings,
    );
    let account = runtime.account.as_ref().expect("account");
    assert_eq!(account.pending_local_starts.len(), 1);
    assert_eq!(account.unmatched_started_turns.len(), 1);
    assert_eq!(account.unmatched_started_turns[0].turn, new_turn);
    assert!(
        account.terminal_observations.is_empty(),
        "a same-thread terminal for a different turn must not be buffered as the pending review"
    );

    let (runtime, _) = reduce(
        runtime,
        ReducerEvent::TurnTerminal {
            turn: new_turn,
            status: "completed".into(),
            error: None,
            now_ms: NOW + 3,
        },
        &settings,
    );
    let (runtime, _) = reduce(
        runtime,
        ReducerEvent::StartResponse {
            request_id: 15,
            session_epoch: "epoch-1".into(),
            workspace_id: "workspace-1".into(),
            thread_id: Some("review-thread".into()),
            now_ms: NOW + 4,
        },
        &settings,
    );
    let account = runtime.account.expect("account");
    assert!(account.pending_local_starts.is_empty());
    assert!(account.unmatched_started_turns.is_empty());
    assert!(account.terminal_observations.is_empty());
    assert!(account.local_turn_registry.is_empty());
}

#[test]
fn owned_usage_limit_terminal_starts_hard_episode_and_reads_once() {
    let mut settings = QuotaGuardSettings::default();
    settings.action = QuotaAction::Interrupt;
    let target = turn("owned-usage-limit");
    let (mut runtime, _) = reduce(Default::default(), ReducerEvent::Enable { account_key: "account".into(), now_ms: NOW }, &settings);
    runtime.account.as_mut().expect("account").local_turn_registry.push(target.clone());

    let (_, effects) = reduce(
        runtime,
        ReducerEvent::TurnTerminal {
            turn: target,
            status: "failed".into(),
            error: Some(json(r#"{"codexErrorInfo":"usageLimitExceeded"}"#)),
            now_ms: NOW + 1,
        },
        &settings,
    );

    assert!(effects.iter().any(|effect| matches!(effect, ReducerEffect::SetProcessClosed)));
    assert_eq!(
        effects.iter().filter(|effect| matches!(effect, ReducerEffect::ReadFullRateLimits)).count(),
        1,
    );
}

#[test]
fn no_rate_update_after_owned_usage_limit_parks_with_fetched_reset_scope() {
    let mut settings = QuotaGuardSettings::default();
    settings.action = QuotaAction::Interrupt;
    let target = turn("owned-usage-limit-no-update");
    let (runtime, _) = reduce(Default::default(), ReducerEvent::Enable { account_key: "account".into(), now_ms: NOW }, &settings);
    let (mut runtime, _) = reduce(runtime, ReducerEvent::Snapshot {
        snapshot: snapshot(20, 2_000), full_read: true, verification: false, now_ms: NOW,
    }, &settings);
    runtime.account.as_mut().expect("account").local_turn_registry.push(target.clone());
    let (runtime, _) = reduce(runtime, ReducerEvent::TurnTerminal {
        turn: target,
        status: "failed".into(),
        error: Some(json(r#"{"codexErrorInfo":"usageLimitExceeded"}"#)),
        now_ms: NOW + 1,
    }, &settings);
    let (runtime, _) = reduce(runtime, ReducerEvent::Snapshot {
        snapshot: snapshot(20, 2_000), full_read: true, verification: false, now_ms: NOW + 2,
    }, &settings);
    let generation = runtime.lifecycle_generation;
    let (runtime, _) = reduce(runtime, ReducerEvent::FinalizeClosedEpisode {
        transition_id: generation, now_ms: NOW + 2,
    }, &settings);

    let account = runtime.account.expect("account");
    assert_eq!(account.phase, QuotaGuardPhase::Tripped);
    assert_eq!(
        account.fired_episodes,
        vec![EpisodeKey::HardLimit { account_key: "account".into() }]
    );
}

#[test]
fn restart_rehydrates_exact_pending_interrupt_with_fenced_reconciliation() {
    let mut settings = QuotaGuardSettings::default();
    settings.action = QuotaAction::Interrupt;
    let target = turn("rehydrate-target");
    let (mut runtime, _) = reduce(Default::default(), ReducerEvent::Enable { account_key: "account".into(), now_ms: NOW }, &settings);
    runtime.account.as_mut().expect("account").local_turn_registry.push(target.clone());
    let (runtime, _) = reduce(runtime, ReducerEvent::Snapshot {
        snapshot: snapshot(89, 2_000), full_read: true, verification: false, now_ms: NOW,
    }, &settings);
    let (runtime, _) = reduce(runtime, ReducerEvent::Snapshot {
        snapshot: snapshot(90, 2_000), full_read: true, verification: false, now_ms: NOW + 1,
    }, &settings);
    let generation = runtime.lifecycle_generation;
    let (runtime, _) = reduce(runtime, ReducerEvent::FinalizeClosedEpisode { transition_id: generation, now_ms: NOW }, &settings);
    let pending = pending_for(&runtime, &target);

    let (restarted, effects) = reduce(
        runtime,
        ReducerEvent::RehydratePendingInterrupts { now_ms: NOW + 1 },
        &settings,
    );

    assert_eq!(pending_for(&restarted, &target), pending);
    assert!(effects.iter().any(|effect| matches!(
        effect,
        ReducerEffect::ReconcileThread { turn, generation, operation_id, attempt }
            if turn == &target && *generation == pending.generation && *operation_id == pending.operation_id && *attempt == pending.attempt
    )));
    assert!(effects.iter().any(|effect| matches!(
        effect,
        ReducerEffect::ScheduleInterruptAck { turn, generation, operation_id, attempt, .. }
            if turn == &target && *generation == pending.generation && *operation_id == pending.operation_id && *attempt == pending.attempt
    )));
}

#[test]
fn disable_enable_retains_only_previously_owned_active_turn() {
    let settings = QuotaGuardSettings::default();
    let owned = turn("owned-before-disable");
    let external = turn("external-after-disable");
    let (mut runtime, _) = reduce(Default::default(), ReducerEvent::Enable { account_key: "account".into(), now_ms: NOW }, &settings);
    runtime.account.as_mut().expect("account").local_turn_registry.push(owned.clone());
    let (runtime, _) = reduce(runtime, ReducerEvent::Disable { now_ms: NOW + 1 }, &settings);
    assert_eq!(runtime.account.as_ref().expect("disabled account").phase, QuotaGuardPhase::Disabled);
    let (runtime, _) = reduce(runtime, ReducerEvent::TurnStarted { turn: external, now_ms: NOW + 2 }, &settings);
    let (runtime, _) = reduce(runtime, ReducerEvent::Enable { account_key: "account".into(), now_ms: NOW + 3 }, &settings);

    assert_eq!(runtime.account.expect("enabled account").local_turn_registry, vec![owned]);
}

#[test]
fn stale_provisionals_expire_before_delayed_response_or_terminal_can_claim_ownership() {
    let settings = QuotaGuardSettings::default();
    let (runtime, _) = reduce(Default::default(), ReducerEvent::Enable { account_key: "account".into(), now_ms: NOW }, &settings);
    let generation = runtime.lifecycle_generation;
    let mut review = pending_start(99, generation);
    review.request_kind = "review/start".into();
    review.request_thread_id = None;
    review.expected_thread_id = None;
    let (runtime, _) = reduce(runtime, ReducerEvent::PendingStartRecorded { start: review, now_ms: NOW }, &settings);
    let provisional = TurnKey {
        session_epoch: "epoch-1".into(), workspace_id: "workspace-1".into(), thread_id: "review-thread".into(), turn_id: "provisional".into(),
    };
    let (runtime, _) = reduce(runtime, ReducerEvent::TurnStarted { turn: provisional.clone(), now_ms: NOW + 1 }, &settings);
    let (runtime, _) = reduce(runtime, ReducerEvent::TurnTerminal {
        turn: provisional.clone(), status: "completed".into(), error: None, now_ms: NOW + 2,
    }, &settings);
    let (runtime, _) = reduce(runtime, ReducerEvent::ProvisionalExpired {
        turn: provisional.clone(), generation, terminal: true, now_ms: NOW + 10_002,
    }, &settings);
    let (runtime, _) = reduce(runtime, ReducerEvent::ProvisionalExpired {
        turn: provisional.clone(), generation, terminal: false, now_ms: NOW + 10_002,
    }, &settings);
    let (runtime, _) = reduce(runtime, ReducerEvent::StartResponse {
        request_id: 99, session_epoch: "epoch-1".into(), workspace_id: "workspace-1".into(),
        thread_id: Some("review-thread".into()), now_ms: NOW + 10_003,
    }, &settings);
    let (runtime, _) = reduce(runtime, ReducerEvent::TurnTerminal {
        turn: provisional, status: "completed".into(), error: None, now_ms: NOW + 10_004,
    }, &settings);

    let account = runtime.account.expect("account");
    assert!(account.local_turn_registry.is_empty());
    assert!(account.unmatched_started_turns.is_empty());
    assert!(account.terminal_observations.is_empty());
}

#[test]
fn a_healthy_reading_keeps_a_trip_closed() {
    for action in [QuotaAction::Interrupt, QuotaAction::Block] {
        let mut harness = QuotaGuardHarness::new(
            QuotaGuardSettings { action, ..QuotaGuardSettings::default() },
            NOW,
        );
        harness.dispatch(ReducerEvent::Enable { account_key: "account".into(), now_ms: NOW });
        for (used, now_ms) in [(89, NOW), (90, NOW + 1)] {
            harness.dispatch(ReducerEvent::Snapshot {
                snapshot: snapshot(used, 2_000),
                full_read: true,
                verification: false,
                now_ms,
            });
        }
        let transition_id = harness.runtime.lifecycle_generation;
        harness.dispatch(ReducerEvent::FinalizeClosedEpisode { transition_id, now_ms: NOW + 1 });
        harness.take_effects();
        harness.dispatch(ReducerEvent::Snapshot {
            snapshot: snapshot(1, 2_000),
            full_read: true,
            verification: false,
            now_ms: NOW + 2,
        });
        let account = harness.runtime.account.as_ref().expect("account");
        assert_eq!(account.phase, QuotaGuardPhase::Tripped);
        let effects = harness.take_effects();
        assert!(!effects.contains(&ReducerEffect::SetProcessOpen));
        assert!(!effects.contains(&ReducerEffect::ReadFullRateLimits));
    }
}

#[test]
fn pending_starts_and_interrupts_are_walked_in_the_order_of_their_keys() {
    let mut settings = QuotaGuardSettings::default();
    settings.action = QuotaAction::Interrupt;
    let (mut runtime, _) = reduce(
        Default::default(),
        ReducerEvent::Enable { account_key: "account".into(), now_ms: NOW },
        &settings,
    );
    let generation = runtime.lifecycle_generation;
    for request_id in [9, 3, 6, 3] {
        let event = ReducerEvent::PendingStartRecorded {
            start: pending_start(request_id, generation),
            now_ms: NOW,
        };
        runtime = reduce(runtime, event, &settings).0;
    }
    let account = runtime.account.as_mut().expect("enabled account");
    let ids: Vec<u64> =
        account.pending_local_starts.iter().map(|start| start.request_id).collect();
    assert_eq!(ids, vec![3, 6, 9]);

    account.phase = QuotaGuardPhase::Tripped;
    account.local_turn_registry = vec![turn("turn-2"), turn("turn-10"), turn("turn-1")];
    let (runtime, _) = reduce(
        runtime,
        ReducerEvent::FinalizeClosedEpisode { transition_id: generation, now_ms: NOW },
        &settings,
    );
    let account = runtime.account.expect("enabled account");
    let turns: Vec<&str> = account
        .pending_interrupt_index
        .iter()
        .map(|pending| pending.turn.turn_id.as_str())
        .collect();
    assert_eq!(turns, vec!["turn-1", "turn-10", "turn-2"]);
    let operations: Vec<u64> =
        account.pending_interrupt_index.iter().map(|pending| pending.operation_id).collect();
    assert_eq!(operations, vec![operations[2] + 2, operations[2] + 1, operations[2]]);
}
