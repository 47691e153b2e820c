use codex_usage_limiter::bootstrap::{
    Bootstrap, BootstrapAction, BootstrapStage, Revalidation, RevalidationStage,
};
use codex_usage_limiter::coordinator::{
    close_enforcement_before_persistence, quota_guard_resolve_intervention, record_pending_start,
    record_start_failed, revalidation_failure, wait_ms, ActorEvent, CommandStep, Coordinator,
    EffectStep, ObservedStep, QuotaGuardCommand, Resolution, SettingsStep, TimerStep,
};
use codex_usage_limiter::events::QuotaGuardEvent;
use codex_usage_limiter::gate::{ProcessGate, ProcessPolicy};
use codex_usage_limiter::identity::{
    account_key, active_turn_id, response_thread_id, strict_account_identity,
};
use codex_usage_limiter::json::{parse_json, Json};
use codex_usage_limiter::model::{
    AccountRuntime, EpisodeKey, QuotaGuardActivityKind, QuotaGuardPhase, QuotaGuardRuntimeState,
    QuotaWindowKind, RateLimitSnapshot, RateLimitWindow, TurnKey,
};
use codex_usage_limiter::paths::PathStyle;
use codex_usage_limiter::persistence::{load_runtime, LoadRuntime};
use codex_usage_limiter::public_document::public_document;
use codex_usage_limiter::public_state::{phase_name, policy_name, quota_guard_blocked_error};
use codex_usage_limiter::reducer::{reduce, ReducerEffect, ReducerEvent};
use codex_usage_limiter::settings::{QuotaAction, QuotaGuardSettings, SettingsChanged};
use codex_usage_limiter::state_text::parse;
use codex_usage_limiter::stored_state::persisted_text;

fn json(text: &str) -> Json {
    parse_json(text).expect("valid JSON")
}

fn limits(used_percent: u8, hard: bool, observed_at: i64) -> RateLimitSnapshot {
    RateLimitSnapshot {
        primary: Some(RateLimitWindow {
            used_percent,
            window_duration_mins: None,
            reset_at: Some(60),
        }),
        secondary: None,
        credits: None,
        plan_type: None,
        rate_limit_reached_type: if hard { Some("hard".into()) } else { None },
        observed_at,
    }
}

fn turn() -> TurnKey {
    TurnKey {
        session_epoch: "epoch".into(),
        workspace_id: "workspace".into(),
        thread_id: "thread".into(),
        turn_id: "turn".into(),
    }
}

fn bound() -> Coordinator {
    let mut coordinator = Coordinator::default();
    let step = coordinator.handle_observed(
        QuotaGuardEvent::WorkspaceBound {
            session_epoch: "epoch".into(),
            workspace_id: "workspace".into(),
            canonical_codex_home: "home".into(),
        },
        false,
        1,
    );
    assert!(matches!(step, ObservedStep::Nothing));
    coordinator
}

fn guarded() -> Coordinator {
    let mut coordinator = bound();
    let settings = QuotaGuardSettings::default();
    assert_eq!(coordinator.begin_bootstrap("workspace").expect("bound"), "epoch");
    let event = coordinator
        .identity_read("workspace", Some("member@example.test"), 1)
        .expect("identity")
        .expect("not guarded yet");
    let effects = coordinator.apply(event, &settings);
    for effect in effects {
        coordinator.run_effect(effect, &settings, 1).expect("effect");
    }
    coordinator.associate("workspace", 1);
    coordinator
}

#[test]
fn non_enable_action_change_keeps_breached_notify_only_monitoring_open_until_apply() {
    let mut handle = bound();
    let mut account = AccountRuntime::new("account".into(), 1);
    account.phase = QuotaGuardPhase::Monitoring;
    account.breached_windows.push(QuotaWindowKind::Primary);
    account.snapshot = Some(limits(90, false, 1));
    handle.runtime.account = Some(account);

    handle.synchronize_gate_with_runtime();
    assert_eq!(handle.gate.policy(), ProcessPolicy::EnabledOpen);
    assert!(handle.gate.status(Some("epoch"), "workspace").open);

    let mut settings = QuotaGuardSettings::default();
    settings.action = QuotaAction::Interrupt;
    let runtime = std::mem::take(&mut handle.runtime);
    let (_, effects) = reduce(runtime, ReducerEvent::ApplyActionNow { now_ms: 2 }, &settings);
    assert!(effects.iter().any(|effect| matches!(effect, ReducerEffect::SetProcessClosed)));
    close_enforcement_before_persistence(&mut handle.gate, &effects);
    assert_eq!(handle.gate.policy(), ProcessPolicy::EnabledClosed);
}

#[test]
fn actor_smoke_persists_closed_gate_before_exact_interrupt() {
    let mut settings = QuotaGuardSettings::default();
    settings.action = QuotaAction::Interrupt;
    let (mut runtime, _) = reduce(
        QuotaGuardRuntimeState::default(),
        ReducerEvent::Enable { account_key: "a".into(), now_ms: 1 },
        &settings,
    );
    runtime.account.as_mut().unwrap().local_turn_registry.push(turn());
    let (runtime, _) = reduce(
        runtime,
        ReducerEvent::Snapshot {
            snapshot: limits(89, false, 1),
            full_read: true,
            verification: false,
            now_ms: 1,
        },
        &settings,
    );
    let (runtime, effects) = reduce(
        runtime,
        ReducerEvent::Snapshot {
            snapshot: limits(100, true, 2),
            full_read: true,
            verification: false,
            now_ms: 2,
        },
        &settings,
    );
    assert!(effects.contains(&ReducerEffect::SetProcessClosed));
    let mut gate = ProcessGate::default();
    gate.set_policy(ProcessPolicy::EnabledClosed);
    let text = persisted_text(&runtime).unwrap();
    assert_eq!(gate.policy(), ProcessPolicy::EnabledClosed);
    let loaded = load_runtime(
        PathStyle::Posix,
        "/tmp/quota-guard-state.json",
        2,
        parse(&text).ok(),
        None,
        true,
        false,
    );
    assert!(matches!(
        loaded,
        LoadRuntime::Valid(saved)
            if matches!(saved.account.as_ref().map(|account| account.phase), Some(QuotaGuardPhase::Tripped))
    ));
    let generation = runtime.lifecycle_generation;
    let (_, final_effects) = reduce(
        runtime,
        ReducerEvent::FinalizeClosedEpisode { transition_id: generation, now_ms: 1 },
        &settings,
    );
    assert!(final_effects.iter().any(|effect| matches!(
        effect,
        ReducerEffect::Interrupt { turn, .. }
            if turn.workspace_id == "workspace" && turn.thread_id == "thread" && turn.turn_id == "turn"
    )));
}

#[test]
fn enforcing_close_blocks_post_snapshot_admission_and_defers_finalization() {
    let mut handle = Coordinator::default();
    handle.gate.set_policy(ProcessPolicy::EnabledOpen);
    handle.gate.register_closed_epoch("epoch".into(), "workspace".into());
    handle.gate.set_epoch_open("epoch", "workspace", true);
    let admitted_before_close =
        handle.gate.try_admit(Some("epoch"), "workspace").expect("pre-close admission");

    close_enforcement_before_persistence(
        &mut handle.gate,
        &vec![
            ReducerEffect::SetProcessClosed,
            ReducerEffect::FinalizeClosedEpisode { transition_id: 7 },
        ],
    );
    assert_eq!(handle.gate.policy(), ProcessPolicy::EnabledClosed);
    assert!(
        handle.gate.try_admit(Some("epoch"), "workspace").is_err(),
        "a post-snapshot request cannot become AllowOnBind"
    );

    let step = handle.run_effect(
        ReducerEffect::FinalizeClosedEpisode { transition_id: 7 },
        &QuotaGuardSettings::default(),
        1,
    );
    assert!(
        matches!(step, Ok(EffectStep::AwaitAdmissions { generation: 7 })),
        "finalization waits outside while a pre-close request persists its fact"
    );
    assert_eq!(handle.gate.active_admissions(), 1);
    admitted_before_close.release(&mut handle.gate);
    assert_eq!(handle.gate.active_admissions(), 0);
    assert!(matches!(
        handle.timer_expired(ActorEvent::FinalizeClosedEpisode { generation: 7 }, 2),
        TimerStep::Apply {
            event: ReducerEvent::FinalizeClosedEpisode { transition_id: 7, now_ms: 2 }
        }
    ));
}

#[test]
fn usage_limit_terminal_orders_full_read_before_closing_finalization() {
    let mut settings = QuotaGuardSettings::default();
    settings.action = QuotaAction::Interrupt;
    let (mut runtime, _) = reduce(
        QuotaGuardRuntimeState::default(),
        ReducerEvent::Enable { account_key: "a".into(), now_ms: 1 },
        &settings,
    );
    runtime.account.as_mut().expect("account").local_turn_registry.push(turn());

    let (_, effects) = reduce(
        runtime,
        ReducerEvent::TurnTerminal {
            turn: turn(),
            status: "failed".into(),
            error: Some(json(r#"{"error":{"codexErrorInfo":"usageLimitExceeded"}}"#)),
            now_ms: 2,
        },
        &settings,
    );

    assert!(matches!(
        effects.as_slice(),
        [
            ReducerEffect::SetProcessClosed,
            ReducerEffect::ReadFullRateLimits,
            ReducerEffect::FinalizeClosedEpisode { .. },
        ]
    ));
}

#[test]
fn account_keys_are_digests_of_home_and_identity() {
    // The digest of "home", a zero byte and "member@example.test".
    let key = account_key("home", "member@example.test");
    assert_eq!(key, "52c22499718faefaae935fa583aae6e0299c87d3659108e063a55521279dfc7d");
    assert_ne!(key, account_key("hom", "emember@example.test"));
    assert_ne!(key, "home");
}

#[test]
fn an_empty_home_and_identity_have_the_digest_of_one_zero_byte() {
    assert_eq!(
        account_key("", ""),
        "6e340b9cffb37a989ca544e6bb780a2c78901d3fb33738768511a30617afa01d"
    );
}

#[test]
fn ids_are_found_in_what_wraps_an_answer() {
    assert_eq!(
        response_thread_id(&json(r#"{"result":{"thread":{"threadId":"t-1"}}}"#)).as_deref(),
        Some("t-1")
    );
    assert_eq!(
        response_thread_id(&json(r#"{"thread_id":"outer","result":{"threadId":"inner"}}"#))
            .as_deref(),
        Some("outer")
    );
    assert_eq!(response_thread_id(&json(r#"{"data":{"threadId":"t-1"}}"#)), None);
    assert_eq!(
        active_turn_id(&json(r#"{"params":{"turn":{"turn_id":"turn-1"}}}"#)).as_deref(),
        Some("turn-1")
    );
}

#[test]
fn blocked_requests_are_told_the_phase() {
    assert_eq!(
        quota_guard_blocked_error(QuotaGuardPhase::Tripped, Some(-5)),
        "QUOTA_GUARD_BLOCKED|state=tripped|verifyAt=-5"
    );
    assert_eq!(
        quota_guard_blocked_error(QuotaGuardPhase::InterventionRequired, None),
        "QUOTA_GUARD_BLOCKED|state=interventionRequired|verifyAt="
    );
    assert_eq!(phase_name(QuotaGuardPhase::Monitoring), "monitoring");
    assert_eq!(policy_name(ProcessPolicy::EnabledClosed), "enabledClosed");
}

#[test]
fn a_bound_workspace_is_established_before_it_is_admitted() {
    let mut coordinator = bound();
    assert!(coordinator.begin_bootstrap("other").is_err());
    coordinator.begin_bootstrap("workspace").expect("bound");
    assert!(!coordinator.gate.status(Some("epoch"), "workspace").open);
    assert_eq!(
        coordinator.identity_read("workspace", None, 1).unwrap_err(),
        "account/read returned no strict identity"
    );
    let mut coordinator = guarded();
    assert!(coordinator.gate.status(Some("epoch"), "workspace").open);
    assert_eq!(coordinator.finish_bootstrap("epoch", "workspace", 10), Some(300_010));
    assert_eq!(coordinator.finish_bootstrap("epoch", "workspace", 11), None);
    assert!(coordinator
        .identity_read("workspace", Some("member@example.test"), 2)
        .expect("same account")
        .is_none());
    assert_eq!(
        coordinator.identity_read("workspace", Some("other@example.test"), 2).unwrap_err(),
        "strict account identity changed; disable and re-enable quota guard"
    );
}

#[test]
fn reports_of_another_session_are_ignored() {
    let mut coordinator = guarded();
    let step = coordinator.handle_observed(
        QuotaGuardEvent::TurnStarted {
            session_epoch: "old-epoch".into(),
            workspace_id: "workspace".into(),
            thread_id: "thread".into(),
            turn_id: "turn".into(),
        },
        true,
        2,
    );
    assert!(matches!(step, ObservedStep::Nothing));
    let step = coordinator.handle_observed(
        QuotaGuardEvent::TurnStarted {
            session_epoch: "epoch".into(),
            workspace_id: "workspace".into(),
            thread_id: "thread".into(),
            turn_id: "turn".into(),
        },
        true,
        2,
    );
    assert!(matches!(
        step,
        ObservedStep::Apply { event: ReducerEvent::TurnStarted { turn: started, now_ms: 2 } }
            if started == turn()
    ));
}

#[test]
fn a_guarded_disconnect_asks_for_intervention() {
    let mut coordinator = guarded();
    let step = coordinator.handle_observed(
        QuotaGuardEvent::WorkspaceDisconnected {
            session_epoch: "epoch".into(),
            workspace_id: "workspace".into(),
        },
        true,
        3,
    );
    assert!(matches!(step, ObservedStep::Intervened));
    let account = coordinator.runtime.account.as_ref().expect("account");
    assert_eq!(account.phase, QuotaGuardPhase::InterventionRequired);
    assert_eq!(account.last_error.as_deref(), Some("guarded workspace disconnected"));
    assert_eq!(coordinator.gate.policy(), ProcessPolicy::EnabledClosed);
    assert!(!coordinator.gate.status(Some("epoch"), "workspace").open);
}

#[test]
fn a_changed_owner_closes_the_process_first() {
    let mut coordinator = guarded();
    let step = coordinator.handle_observed(
        QuotaGuardEvent::AccountIdentityChanged {
            session_epoch: "epoch".into(),
            workspace_id: "workspace".into(),
            reason: "account/updated".into(),
        },
        true,
        3,
    );
    assert!(matches!(
        step,
        ObservedStep::Bootstrap { workspace_id, reason: Some(reason) }
            if workspace_id == "workspace" && reason == "account/updated"
    ));
    assert_eq!(coordinator.gate.policy(), ProcessPolicy::EnabledClosed);
    assert_eq!(
        revalidation_failure("account/updated", "gone"),
        "identity revalidation (account/updated) failed: gone"
    );
}

#[test]
fn enabling_needs_a_bound_workspace() {
    let change = SettingsChanged {
        previous: QuotaGuardSettings::default(),
        updated: QuotaGuardSettings { enabled: true, ..QuotaGuardSettings::default() },
    };
    let mut coordinator = Coordinator::default();
    assert!(matches!(
        coordinator.handle_settings_changed(change, 1),
        SettingsStep::Enable { workspace_id: Err(message) }
            if message == "quota guard requires a connected local workspace before it can be enabled"
    ));
    assert_eq!(coordinator.gate.policy(), ProcessPolicy::EnabledClosed);
    let mut coordinator = bound();
    assert!(matches!(
        coordinator.handle_settings_changed(change, 1),
        SettingsStep::Enable { workspace_id: Ok(workspace_id) } if workspace_id == "workspace"
    ));
}

#[test]
fn a_notice_says_what_is_left() {
    let mut coordinator = guarded();
    coordinator.runtime.account.as_mut().unwrap().snapshot = Some(limits(93, false, 1));
    let episode = EpisodeKey::Threshold {
        account_key: "a".into(),
        window: QuotaWindowKind::Primary,
        threshold_percent: 90,
        resets_at: None,
    };
    assert_eq!(
        coordinator.breach_notice(&episode),
        "primary window: 7% left (floor 10%). Resets when the quota service reports a reset."
    );
    assert_eq!(
        coordinator.breach_notice(&EpisodeKey::HardLimit { account_key: "a".into() }),
        "hard limit: 0% left (floor 0%). Resets after the next verified reset."
    );
}

#[test]
fn quota_that_is_available_again_is_told_where_it_is_asked_for() {
    let mut coordinator = guarded();
    let mut settings = QuotaGuardSettings::default();
    settings.notify_when_available = true;
    coordinator.runtime.account.as_mut().unwrap().phase = QuotaGuardPhase::Monitoring;
    assert!(matches!(
        coordinator.run_effect(ReducerEffect::SetProcessOpen, &settings, 1),
        Ok(EffectStep::NotifyAvailable { title, body })
            if title == "Quota guard ready" && body == "Quota limits have been verified healthy."
    ));
    coordinator.runtime.account.as_mut().unwrap().phase = QuotaGuardPhase::Tripped;
    assert!(matches!(
        coordinator.run_effect(ReducerEffect::SetProcessOpen, &settings, 1),
        Ok(EffectStep::Done)
    ));
    coordinator.runtime.account.as_mut().unwrap().phase = QuotaGuardPhase::Monitoring;
    settings.notify_when_available = false;
    assert!(matches!(
        coordinator.run_effect(ReducerEffect::SetProcessOpen, &settings, 1),
        Ok(EffectStep::Done)
    ));
    assert_eq!(coordinator.gate.policy(), ProcessPolicy::EnabledOpen);
}

#[test]
fn effects_become_steps() {
    let mut coordinator = guarded();
    let settings = QuotaGuardSettings::default();
    assert!(matches!(
        coordinator.run_effect(ReducerEffect::PersistDisarmed, &settings, 1),
        Ok(EffectStep::SaveSettings { settings: saved }) if !saved.armed
    ));
    assert!(matches!(
        coordinator.run_effect(
            ReducerEffect::PersistAutoRearm { threshold_percent: 60 },
            &settings,
            1
        ),
        Ok(EffectStep::SaveSettings { settings: saved })
            if saved.armed
                && saved.primary_threshold_percent == 60
                && saved.secondary_threshold_percent == 60
    ));
    assert!(matches!(
        coordinator.run_effect(ReducerEffect::RaiseThresholds { used_percent: 95 }, &settings, 1),
        Ok(EffectStep::SaveSettings { settings: saved })
            if saved.primary_threshold_percent == 95 && saved.secondary_threshold_percent == 95
    ));
    assert!(matches!(
        coordinator.run_effect(ReducerEffect::ReadFullRateLimits, &settings, 1),
        Ok(EffectStep::ReadRateLimits { workspace_id }) if workspace_id == "workspace"
    ));
    assert!(matches!(
        coordinator.run_effect(
            ReducerEffect::ScheduleStartExpiry { request_id: 4, generation: 1, deadline: 1_500 },
            &settings,
            1_000
        ),
        Ok(EffectStep::Schedule {
            wait_ms: 500,
            event: ActorEvent::StartExpiry { request_id: 4, generation: 1 }
        })
    ));
    let step = coordinator.run_effect(
        ReducerEffect::Interrupt { turn: turn(), generation: 1, operation_id: 9, attempt: 1 },
        &settings,
        1,
    );
    assert!(matches!(step, Ok(EffectStep::InterruptTurn { operation_id: 9, .. })));
    let account = coordinator.runtime.account.as_ref().unwrap();
    let entry = account.activity_entries.last().expect("activity");
    assert_eq!(entry.kind, QuotaGuardActivityKind::InterruptRequested);
    assert_eq!(entry.operation_id, Some(9));
    assert_eq!(entry.turn_id.as_deref(), Some("turn"));
}

#[test]
fn waits_end_at_once_when_the_deadline_has_passed() {
    assert_eq!(wait_ms(10, 20), 0);
    assert_eq!(wait_ms(20, 10), 10);
    assert_eq!(wait_ms(i64::MAX, i64::MIN), i64::MAX as u64);
}

#[test]
fn a_check_that_is_due_is_made_once() {
    let mut coordinator = guarded();
    let due = coordinator.schedule_healthy_revalidation(0).expect("first check");
    let generation = coordinator.runtime.lifecycle_generation;
    assert!(matches!(
        coordinator.timer_expired(
            ActorEvent::HealthyRevalidate { generation, due_at: due },
            due - 1
        ),
        TimerStep::Nothing
    ));
    assert!(matches!(
        coordinator.timer_expired(ActorEvent::HealthyRevalidate { generation, due_at: due }, due),
        TimerStep::Revalidate
    ));
    let workspace = coordinator.healthy_revalidate().expect("workspace");
    assert!(coordinator.identity_checked(&workspace, Some("member@example.test")).is_ok());
    assert_eq!(
        coordinator.identity_checked(&workspace, Some("other@example.test")).unwrap_err(),
        "strict account identity changed during healthy revalidation"
    );
    assert_eq!(coordinator.revalidated(generation, due), Some(due + 300_000));
    assert_eq!(coordinator.revalidated(generation + 1, due), None);
}

#[test]
fn what_cannot_be_checked_is_said() {
    let coordinator = Coordinator::default();
    assert_eq!(
        coordinator.healthy_revalidate().unwrap_err(),
        "quota guard has no account for identity revalidation"
    );
    let mut coordinator = Coordinator::default();
    coordinator.runtime.account = Some(AccountRuntime::new("a".into(), 1));
    assert_eq!(
        coordinator.healthy_revalidate().unwrap_err(),
        "quota guard has no associated workspace for identity revalidation"
    );
    coordinator.associate("workspace", 1);
    assert_eq!(
        coordinator.healthy_revalidate().unwrap_err(),
        "quota guard workspace binding missing for identity revalidation"
    );
    assert_eq!(
        Coordinator::default().verify_once().map(|_| ()).unwrap_err(),
        "quota guard has no associated workspace for verification"
    );
}

#[test]
fn the_workspace_verified_last_comes_first() {
    let mut coordinator = guarded();
    coordinator.associate("second", 5);
    coordinator.associate("workspace", 6);
    let account = coordinator.runtime.account.as_ref().unwrap();
    assert_eq!(account.associated_workspace_ids, vec!["workspace", "second"]);
    assert_eq!(account.updated_at, 6);
}

#[test]
fn commands_lead_to_their_steps() {
    let mut coordinator = guarded();
    assert!(matches!(
        coordinator.handle_command(QuotaGuardCommand::ApplyActionNow, 4),
        Ok(CommandStep::Apply { event: ReducerEvent::ApplyActionNow { now_ms: 4 } })
    ));
    assert!(matches!(
        coordinator.handle_command(QuotaGuardCommand::KeepWaiting, 4),
        Ok(CommandStep::Show)
    ));
    assert!(matches!(
        coordinator.handle_command(QuotaGuardCommand::RetryClosed, 4),
        Ok(CommandStep::Verify { .. })
    ));
    assert_eq!(coordinator.gate.policy(), ProcessPolicy::EnabledClosed);
    assert_eq!(quota_guard_resolve_intervention("disableGuard"), Ok(Resolution::DisableGuard));
    assert_eq!(quota_guard_resolve_intervention("retryClosed"), Ok(Resolution::RetryClosed));
    assert_eq!(
        quota_guard_resolve_intervention("else").unwrap_err(),
        "unsupported quota guard resolution"
    );
}

#[test]
fn only_the_facts_of_starts_are_recorded_reliably() {
    let start = QuotaGuardEvent::PendingLocalStart {
        request_id: 1,
        session_epoch: "epoch".into(),
        workspace_id: "workspace".into(),
        request_thread_id: None,
        expected_thread_id: None,
        request_kind: "turn/start".into(),
    };
    assert!(record_pending_start(&start).is_ok());
    assert_eq!(
        record_start_failed(&start).unwrap_err(),
        "quota guard reliable failure recording requires StartFailed"
    );
}

#[test]
fn what_the_limiter_shows_of_itself() {
    let mut coordinator = guarded();
    coordinator.set_configured_workspaces(&vec!["workspace".to_string(), "idle".to_string()]);
    let account = coordinator.runtime.account.as_mut().unwrap();
    account.local_turn_registry = vec![turn(), turn()];
    account.snapshot = Some(limits(20, false, 100));
    let shown = coordinator.public_state(100);
    assert_eq!(shown.phase, QuotaGuardPhase::Monitoring);
    assert_eq!(shown.account_label, None);
    assert!(shown.snapshot_fresh);
    assert_eq!(shown.affected_turns.len(), 1);
    assert_eq!(shown.drain_deadline, None);
    assert_eq!(shown.verify_at, None);
    assert!(shown.admission_by_workspace.get("workspace").unwrap().open);
    assert_eq!(shown.admission_by_workspace.get("idle").unwrap().reason, "workspaceUnbound");
    let nothing = Coordinator::default().public_state(1);
    assert_eq!(nothing.phase, QuotaGuardPhase::Disabled);
    assert!(nothing.account_key.is_none());
}

#[test]
fn public_state_serializes_every_frontend_contract_field() {
    let mut handle = Coordinator::default();
    let mut account = AccountRuntime::new("hashed-account".into(), 1);
    account.snapshot = Some(RateLimitSnapshot {
        primary: Some(RateLimitWindow {
            used_percent: 20,
            window_duration_mins: Some(60),
            reset_at: Some(100),
        }),
        secondary: None,
        credits: None,
        plan_type: None,
        rate_limit_reached_type: None,
        observed_at: 1,
    });
    handle.runtime.account = Some(account);
    let value = public_document(&handle.public_state(1));
    for key in [
        "accountKey",
        "accountLabel",
        "phase",
        "snapshot",
        "snapshotFresh",
        "breachedWindows",
        "affectedTurns",
        "drainDeadline",
        "verifyAt",
        "monitorHealthy",
        "lastError",
        "activity",
        "admissionByWorkspace",
    ] {
        assert!(value.get(key).is_some(), "missing public state key {key}");
    }
    assert_eq!(value.get("accountKey").unwrap().as_str(), Some("hashed-account"));
    assert!(value.get("activity").unwrap().as_array().is_some());
    assert!(matches!(value.get("admissionByWorkspace"), Some(Json::Object(_))));
}

#[test]
fn a_shown_state_is_written_out_in_full() {
    let mut coordinator = guarded();
    let account = coordinator.runtime.account.as_mut().unwrap();
    account.account_key = "key".into();
    account.activity_entries.clear();
    account.local_turn_registry = vec![turn()];
    account.breached_windows = vec![QuotaWindowKind::Primary];
    account.last_error = Some("late".into());
    coordinator.append_activity(
        QuotaGuardActivityKind::InterruptRequested,
        Some(12),
        Some(&turn()),
        None,
        9,
    );
    let document = public_document(&coordinator.public_state(9));
    for (key, expected) in [
        ("accountKey", r#""key""#),
        ("accountLabel", "null"),
        ("phase", r#""monitoring""#),
        ("snapshot", "null"),
        ("snapshotFresh", "false"),
        ("breachedWindows", r#"["primary"]"#),
        ("drainDeadline", "null"),
        ("verifyAt", "null"),
        ("monitorHealthy", "true"),
        ("lastError", r#""late""#),
    ] {
        assert_eq!(document.get(key), Some(&json(expected)), "{key}");
    }
    let shown = &document.get("affectedTurns").unwrap().as_array().unwrap()[0];
    assert_eq!(shown.get("workspaceId").unwrap().as_str(), Some("workspace"));
    assert_eq!(shown.get("threadId").unwrap().as_str(), Some("thread"));
    assert_eq!(shown.get("turnId").unwrap().as_str(), Some("turn"));
    let entry = &document.get("activity").unwrap().as_array().unwrap()[0];
    assert_eq!(entry.get("kind").unwrap().as_str(), Some("interruptRequested"));
    assert_eq!(entry.get("timestamp").unwrap().as_i64(), Some(9));
    assert_eq!(entry.get("operationId").unwrap().as_str(), Some("12"));
    let admission = document.get("admissionByWorkspace").unwrap().get("workspace").unwrap();
    assert_eq!(admission.get("sessionEpoch").unwrap().as_str(), Some("epoch"));
    assert_eq!(admission.get("open"), Some(&Json::Bool(true)));
    assert_eq!(admission.get("reason").unwrap().as_str(), Some("open"));
}

#[test]
fn strict_identity_accepts_only_account_fields_through_known_envelopes() {
    assert_eq!(
        strict_account_identity(&json(
            r#"{
                "id": 42,
                "result": { "account": { "email": "Member@Example.test", "planType": "pro" } }
            }"#
        )),
        Some("member@example.test".into()),
    );
    assert_eq!(
        strict_account_identity(&json(
            r#"{
                "id": "member@example.test",
                "result": { "requestId": "unrelated" }
            }"#
        )),
        None,
    );
    assert_eq!(
        strict_account_identity(&json(r#"{ "metadata": { "email": "member@example.test" } }"#)),
        None,
    );
}

fn applied(coordinator: &mut Coordinator, event: ReducerEvent) {
    let settings = QuotaGuardSettings::default();
    for effect in coordinator.apply(event, &settings) {
        coordinator.run_effect(effect, &settings, 1).expect("effect");
    }
}

const OWNER: &str = r#"{"result":{"account":{"email":"member@example.test"}}}"#;
const LIMITS: &str =
    r#"{"result":{"rateLimits":{"primary":{"usedPercent":20,"windowDurationMins":300,"resetsAt":100}}}}"#;

#[test]
fn an_account_is_established_step_by_step() {
    let mut coordinator = bound();
    let (mut bootstrap, action) = Bootstrap::begin(&mut coordinator, "workspace").unwrap();
    assert!(matches!(action, BootstrapAction::ReadIdentity));
    assert_eq!(coordinator.gate.policy(), ProcessPolicy::EnabledClosed);
    let action = bootstrap.step(&mut coordinator, Ok(json(OWNER)), 1);
    let BootstrapAction::Apply { event } = action else { panic!("the account is enabled") };
    assert!(matches!(&event, ReducerEvent::Enable { account_key: key, .. }
        if *key == account_key("home", "member@example.test")));
    applied(&mut coordinator, event);
    let action = bootstrap.step(&mut coordinator, Ok(Json::Null), 2);
    assert!(matches!(action, BootstrapAction::ReadRateLimits));
    let action = bootstrap.step(&mut coordinator, Ok(json(LIMITS)), 3);
    let BootstrapAction::Apply { event } = action else { panic!("the limits are applied") };
    applied(&mut coordinator, event);
    coordinator.runtime.account.as_mut().unwrap().local_turn_registry = vec![turn()];
    let action = bootstrap.step(&mut coordinator, Ok(Json::Null), 4);
    assert!(matches!(action, BootstrapAction::ReadThread { turn: read } if read == turn()));
    let action = bootstrap.step(&mut coordinator, Ok(json(r#"{"thread":{}}"#)), 5);
    let BootstrapAction::Apply { event } = action else { panic!("the turn is ended") };
    assert!(matches!(&event, ReducerEvent::TurnTerminal { status, .. } if status == "reconciled"));
    applied(&mut coordinator, event);
    let action = bootstrap.step(&mut coordinator, Ok(Json::Null), 6);
    assert!(matches!(action, BootstrapAction::Persist));
    let action = bootstrap.step(&mut coordinator, Ok(Json::Null), 7);
    assert!(matches!(action, BootstrapAction::Finished { due: Some(300_007) }));
    assert!(coordinator.gate.status(Some("epoch"), "workspace").open);
    let account = coordinator.runtime.account.as_ref().unwrap();
    assert_eq!(account.associated_workspace_ids, ["workspace"]);
    assert!(account.local_turn_registry.is_empty());
    assert_eq!(bootstrap.stage, BootstrapStage::Ended);
}

#[test]
fn nothing_is_admitted_where_the_owner_is_not_established() {
    for answer in [r#"{"result":{}}"#, r#"{"result":{"account":{"email":"x@example.test"}}}"#] {
        let mut coordinator = guarded();
        let (mut bootstrap, _) = Bootstrap::begin(&mut coordinator, "workspace").unwrap();
        let action = bootstrap.step(&mut coordinator, Ok(json(answer)), 2);
        assert!(matches!(action, BootstrapAction::Failed { .. }));
        assert_eq!(coordinator.gate.policy(), ProcessPolicy::EnabledClosed);
        assert!(!coordinator.gate.status(Some("epoch"), "workspace").open);
    }
    let mut coordinator = guarded();
    let (mut bootstrap, _) = Bootstrap::begin(&mut coordinator, "workspace").unwrap();
    let action = bootstrap.step(&mut coordinator, Err("no answer".to_string()), 2);
    assert!(matches!(action, BootstrapAction::Failed { message } if message == "no answer"));
    assert_eq!(
        Bootstrap::begin(&mut coordinator, "other").map(|_| ()).unwrap_err(),
        "workspace binding missing for quota bootstrap"
    );
}

#[test]
fn a_check_reads_the_owner_before_the_limits() {
    let mut coordinator = guarded();
    let generation = coordinator.runtime.lifecycle_generation;
    let (mut check, action) = Revalidation::begin(&coordinator, generation).unwrap();
    assert!(matches!(action, BootstrapAction::ReadIdentity));
    let action = check.step(&mut coordinator, Ok(json(OWNER)), 2);
    assert!(matches!(action, BootstrapAction::ReadRateLimits));
    let action = check.step(&mut coordinator, Ok(json(LIMITS)), 3);
    let BootstrapAction::Apply { event } = action else { panic!("the limits are applied") };
    applied(&mut coordinator, event);
    let action = check.step(&mut coordinator, Ok(Json::Null), 4);
    assert!(matches!(action, BootstrapAction::Finished { due: Some(300_004) }));
    assert_eq!(check.stage, RevalidationStage::Ended);
    let (mut check, _) = Revalidation::begin(&coordinator, generation).unwrap();
    let other = json(r#"{"result":{"account":{"email":"x@example.test"}}}"#);
    let action = check.step(&mut coordinator, Ok(other), 5);
    assert!(matches!(action, BootstrapAction::Failed { message }
        if message == "strict account identity changed during healthy revalidation"));
}
