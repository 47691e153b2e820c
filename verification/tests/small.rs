use codex_usage_limiter::evaluator::evaluate_snapshot;
use codex_usage_limiter::external_suspend::{
    descendants, is_external_codex_engine, matching_entries, merge_suspended_entries,
    parse_process_list, remaining_after_resume, resume, resume_matching_entries, resume_step,
    resuspend_matching_entries, stable_start_hash, startup_reconcile_plan, sweep,
    explicitly_excluded, sweep_matching_processes, ProcessInfo, ResumeAction, ResumeResult,
    ResumeStep, Resumption, Resuspension, Sweep, SweepAction, SweepResult,
};
use codex_usage_limiter::gate::{AdmissionReason, ProcessGate, ProcessPolicy};
use codex_usage_limiter::json::{parse_json, Json};
use codex_usage_limiter::model::{
    EpisodeKey, QuotaGuardPhase, QuotaWindowKind, RateLimitSnapshot, RateLimitWindow,
    SuspendedExternalEngine,
};
use codex_usage_limiter::parser::{is_usage_limit_exceeded, parse_rate_limits};
use codex_usage_limiter::paths::PathStyle;
use codex_usage_limiter::persistence::LoadRuntime;
use codex_usage_limiter::recovery::recover;
use codex_usage_limiter::settings::QuotaGuardSettings;
use std::collections::HashMap;

fn json(text: &str) -> Json {
    parse_json(text).expect("valid JSON")
}

fn window(used_percent: u8, reset: i64) -> RateLimitWindow {
    RateLimitWindow { used_percent, window_duration_mins: None, reset_at: Some(reset) }
}

fn snapshot(percent: u8, reset: i64, hard: bool) -> RateLimitSnapshot {
    RateLimitSnapshot {
        primary: Some(window(percent, reset)),
        secondary: None,
        credits: None,
        plan_type: None,
        rate_limit_reached_type: if hard { Some("hard".into()) } else { None },
        observed_at: 1,
    }
}

#[test]
fn baseline_suppresses_threshold_but_not_hard_limit() {
    let settings = QuotaGuardSettings::default();
    let result =
        evaluate_snapshot("account", &snapshot(90, 10, true), None, &settings, &Vec::new(), true);
    assert_eq!(result.triggered, vec![EpisodeKey::HardLimit { account_key: "account".into() }]);
}

#[test]
fn threshold_crosses_once_and_rearms_after_hysteresis() {
    let settings = QuotaGuardSettings::default();
    let base = snapshot(89, 10, false);
    let crossed = snapshot(90, 10, false);
    let event =
        evaluate_snapshot("account", &crossed, Some(&base), &settings, &Vec::new(), true);
    let key = event.triggered[0].clone();
    let fired = vec![key.clone()];
    assert!(evaluate_snapshot("account", &crossed, Some(&crossed), &settings, &fired, true)
        .triggered
        .is_empty());
    let low = snapshot(87, 10, false);
    assert_eq!(
        evaluate_snapshot("account", &low, Some(&crossed), &settings, &fired, true).rearmed,
        vec![key]
    );
}

#[test]
fn primary_and_secondary_thresholds_are_independent() {
    let settings = QuotaGuardSettings::default();
    let prior = RateLimitSnapshot {
        primary: Some(window(89, 10)),
        secondary: Some(window(89, 20)),
        credits: None,
        plan_type: None,
        rate_limit_reached_type: None,
        observed_at: 1,
    };
    let current = RateLimitSnapshot {
        primary: Some(window(90, 10)),
        secondary: Some(window(89, 20)),
        ..prior.clone()
    };
    let result =
        evaluate_snapshot("account", &current, Some(&prior), &settings, &Vec::new(), true);
    assert_eq!(result.triggered.len(), 1);
    assert!(matches!(
        result.triggered[0],
        EpisodeKey::Threshold { window: QuotaWindowKind::Primary, .. }
    ));
}

#[test]
fn hard_limit_rearms_only_after_authoritative_clear() {
    let settings = QuotaGuardSettings::default();
    let hard = snapshot(10, 10, true);
    let key = EpisodeKey::HardLimit { account_key: "account".into() };
    let fired = vec![key.clone()];
    assert!(evaluate_snapshot("account", &hard, Some(&hard), &settings, &fired, false)
        .rearmed
        .is_empty());
    let clear = snapshot(10, 10, false);
    assert!(evaluate_snapshot("account", &clear, Some(&hard), &settings, &fired, false)
        .rearmed
        .is_empty());
    assert_eq!(
        evaluate_snapshot("account", &clear, Some(&hard), &settings, &fired, true).rearmed,
        vec![key]
    );
}

#[test]
fn reset_timestamp_rearms_a_threshold_and_sparse_first_event_is_not_baseline() {
    let settings = QuotaGuardSettings::default();
    let prior = snapshot(90, 10, false);
    let key = EpisodeKey::Threshold {
        account_key: "account".into(),
        window: QuotaWindowKind::Primary,
        threshold_percent: 90,
        resets_at: Some(10),
    };
    let fired = vec![key.clone()];
    let next = snapshot(90, 20, false);
    let result = evaluate_snapshot("account", &next, Some(&prior), &settings, &fired, true);
    assert_eq!(result.rearmed, vec![key]);
    assert_eq!(result.triggered.len(), 1);
    assert!(!evaluate_snapshot("account", &next, None, &settings, &Vec::new(), false).baseline);
}

#[test]
fn parses_full_json_rpc_rate_limits_response() {
    let snapshot = parse_rate_limits(
        &json(
            r#"{
                "id": 42,
                "result": {
                    "rateLimits": {
                        "primary": { "usedPercent": 67, "windowDurationMins": 300, "resetsAt": 2000 },
                        "secondary": { "usedPercent": 12, "resetsAt": 3000 },
                        "planType": "pro"
                    }
                }
            }"#,
        ),
        None,
        1,
    )
    .unwrap();
    assert_eq!(snapshot.primary.expect("primary").used_percent, 67);
    assert_eq!(snapshot.primary.expect("primary").window_duration_mins, Some(300));
    assert_eq!(snapshot.secondary.expect("secondary").reset_at, Some(3_000));
    assert_eq!(snapshot.plan_type.as_deref(), Some("pro"));
}

#[test]
fn rejects_malformed_json_rpc_rate_limits_envelope() {
    assert!(parse_rate_limits(&json(r#"{ "result": { "rateLimits": 17 } }"#), None, 1).is_err());
    assert!(parse_rate_limits(&json(r#"{ "result": 17 }"#), None, 1).is_err());
}

#[test]
fn sparse_snake_case_update_preserves_existing_window_fields_and_hard_limit() {
    let initial = parse_rate_limits(
        &json(r#"{"primary":{"usedPercent":40,"resetsAt":42},"rateLimitReachedType":"hard"}"#),
        None,
        1,
    )
    .unwrap();
    let sparse =
        parse_rate_limits(&json(r#"{"primary":{"used_percent":90}}"#), Some(&initial), 2).unwrap();
    assert_eq!(sparse.primary.unwrap().reset_at, Some(42));
    assert_eq!(sparse.rate_limit_reached_type.as_deref(), Some("hard"));
}

#[test]
fn explicit_null_clears_hard_limit_only_when_present() {
    let initial = parse_rate_limits(&json(r#"{"rateLimitReachedType":"hard"}"#), None, 1).unwrap();
    let cleared =
        parse_rate_limits(&json(r#"{"rate_limit_reached_type":null}"#), Some(&initial), 2).unwrap();
    assert_eq!(cleared.rate_limit_reached_type, None);
}

#[test]
fn malformed_percentage_timestamp_and_observed_time_are_rejected() {
    assert!(parse_rate_limits(&json(r#"{"primary":{"usedPercent":101}}"#), None, 1).is_err());
    assert!(parse_rate_limits(&json(r#"{"primary":{"remaining":101}}"#), None, 1).is_err());
    assert!(parse_rate_limits(
        &json(r#"{"primary":{"usedPercent":1,"resetsAt":"tomorrow"}}"#),
        None,
        1
    )
    .is_err());
    assert!(parse_rate_limits(&json(r#"{"primary":{"usedPercent":1}}"#), None, -1).is_err());
}

#[test]
fn each_rate_limit_error_says_what_is_wrong() {
    let error = |text: &str| parse_rate_limits(&json(text), None, 1).unwrap_err();
    assert_eq!(error("17"), "rate limits must be an object");
    assert_eq!(error(r#"{"primary":1}"#), "rate limit window must be an object");
    assert_eq!(
        error(r#"{"primary":{"usedPercent":101}}"#),
        "used percent is outside 0..=100"
    );
    assert_eq!(
        error(r#"{"primary":{"remainingPercent":101}}"#),
        "remaining percent is outside 0..=100"
    );
    assert_eq!(
        error(r#"{"primary":{"usedPercent":1.5}}"#),
        "usedPercent must be a non-negative integer"
    );
    assert_eq!(
        error(r#"{"primary":{"usedPercent":1,"windowDurationMins":-1}}"#),
        "windowDurationMins must be a non-negative integer"
    );
    assert_eq!(
        error(r#"{"planType":" "}"#),
        "planType must be a non-empty string or null"
    );
    assert_eq!(
        parse_rate_limits(&json("{}"), None, -1).unwrap_err(),
        "observedAt must be a non-negative Unix millisecond timestamp"
    );
    let remaining = parse_rate_limits(&json(r#"{"primary":{"remaining":30}}"#), None, 1).unwrap();
    assert_eq!(remaining.primary.unwrap().used_percent, 70);
}

#[test]
fn an_empty_update_keeps_everything_but_the_time() {
    let initial = parse_rate_limits(
        &json(
            r#"{"primary":{"usedPercent":40,"resetsAt":42,"windowDurationMins":300},"planType":"pro","credits":{"balance":3}}"#,
        ),
        None,
        1,
    )
    .unwrap();
    let same = parse_rate_limits(&json("{}"), Some(&initial), 2).unwrap();
    assert_eq!(same, RateLimitSnapshot { observed_at: 2, ..initial });
}

#[test]
fn recognizes_terminal_usage_limit_in_both_protocol_shapes() {
    assert!(is_usage_limit_exceeded(&json(r#"{"codexErrorInfo":"usageLimitExceeded"}"#)));
    assert!(is_usage_limit_exceeded(&json(
        r#"{"error":{"codex_error_info":"usageLimitExceeded"}}"#
    )));
    assert!(!is_usage_limit_exceeded(&json(r#"{"codexErrorInfo":"other"}"#)));
}

#[test]
fn disabled_settings_open_and_discard_stale_runtime() {
    assert_eq!(recover(false, LoadRuntime::Missing, 1).policy, ProcessPolicy::DisabledOpen);
}

#[test]
fn enabled_missing_runtime_starts_closed() {
    let result = recover(true, LoadRuntime::Missing, 1);
    assert_eq!(result.policy, ProcessPolicy::EnabledClosed);
    assert!(result.requires_bootstrap);
}

#[test]
fn corrupt_state_asks_for_intervention() {
    let result = recover(true, LoadRuntime::Corrupt { quarantined_to: "x".into() }, 5);
    let account = result.state.account.expect("account");
    assert_eq!(account.phase, QuotaGuardPhase::InterventionRequired);
    assert_eq!(account.last_error.as_deref(), Some("quota guard state is corrupt"));
    assert_eq!(account.updated_at, 5);
    assert!(!result.requires_bootstrap);
}

#[test]
fn legacy_persisted_phases_map_to_current_phases() {
    let healthy = QuotaGuardPhase::from_persisted("ready").unwrap();
    let frozen = QuotaGuardPhase::from_persisted("parked").unwrap();
    assert_eq!(healthy, QuotaGuardPhase::Monitoring);
    assert_eq!(frozen, QuotaGuardPhase::Tripped);
}

#[test]
fn enabled_open_requires_a_verified_epoch() {
    let mut gate = ProcessGate::default();
    gate.set_policy(ProcessPolicy::EnabledOpen);
    assert_eq!(gate.status(None, "w").reason, AdmissionReason::WorkspaceUnbound);
    gate.register_closed_epoch("e".into(), "w".into());
    assert_eq!(gate.status(Some("e"), "w").reason, AdmissionReason::EpochUnverified);
    gate.set_epoch_open("e", "w", true);
    let token = gate.try_admit(Some("e"), "w").expect("verified");
    assert_eq!(gate.active_admissions(), 1);
    token.release(&mut gate);
    assert_eq!(gate.active_admissions(), 0);
}

#[test]
fn policies_are_encoded_and_decoded() {
    for policy in [
        ProcessPolicy::DisabledOpen,
        ProcessPolicy::EnabledClosed,
        ProcessPolicy::EnabledOpen,
    ] {
        assert_eq!(ProcessPolicy::decode(policy.encode()), policy);
    }
    assert_eq!(ProcessPolicy::decode(77), ProcessPolicy::EnabledClosed);
}

#[test]
fn a_closed_gate_refuses_and_a_disabled_one_admits() {
    let mut gate = ProcessGate::default();
    let token = gate.try_admit(None, "w").expect("disabled");
    gate.close();
    assert!(matches!(
        gate.try_admit(None, "w").map(|_| ()),
        Err(status) if status.reason == AdmissionReason::ProcessClosed
    ));
    assert_eq!(gate.active_admissions(), 1);
    token.release(&mut gate);
    assert_eq!(gate.active_admissions(), 0);
}

fn engine(pid: u32, start: u64) -> SuspendedExternalEngine {
    SuspendedExternalEngine {
        pid,
        process_start_time: start,
        image_path: "codex.exe".into(),
        suspended_at: 1,
    }
}

fn process(pid: u32, parent_pid: u32, start_time: u64, image_path: &str) -> ProcessInfo {
    ProcessInfo { pid, parent_pid, start_time, image_path: image_path.into() }
}

fn run_sweep(
    begun: (Sweep, SweepAction),
    mut suspend: impl FnMut(u32) -> Result<(), String>,
) -> SweepResult {
    let (mut sweep, mut action) = begun;
    loop {
        action = match action {
            SweepAction::Suspend { pid } => sweep.step(suspend(pid)),
            SweepAction::Finished { result } => return result,
        };
    }
}

fn run_resuspension(
    begun: (Resuspension, SweepAction),
    mut suspend: impl FnMut(u32) -> Result<(), String>,
) -> SweepResult {
    let (mut pass, mut action) = begun;
    loop {
        action = match action {
            SweepAction::Suspend { pid } => pass.step(suspend(pid)),
            SweepAction::Finished { result } => return result,
        };
    }
}

fn run_resumption(
    begun: (Resumption, ResumeAction),
    mut resume: impl FnMut(u32) -> Result<(), String>,
) -> ResumeResult {
    let (mut pass, mut action) = begun;
    loop {
        action = match action {
            ResumeAction::Resume { pid } => pass.step(resume(pid)),
            ResumeAction::Finished { result } => return result,
        };
    }
}

#[test]
fn matches_only_codex_engines_and_target_triples() {
    assert!(is_external_codex_engine("C:/Program Files/OpenAI/codex.exe"));
    assert!(is_external_codex_engine("/opt/homebrew/bin/codex"));
    assert!(is_external_codex_engine("codex-x86_64-pc-windows-msvc.exe"));
    assert!(is_external_codex_engine("codex-aarch64-apple-darwin"));
    assert!(!is_external_codex_engine("codex-usage-limiter.exe"));
    assert!(!is_external_codex_engine("codex-code-mode-host.exe"));
    assert!(!is_external_codex_engine("codex-helper.exe"));
}

#[test]
fn stale_identity_drops_a_reused_pid_without_resuming_it() {
    let entry = engine(42, 10);
    let processes = HashMap::from([(42, process(42, 1, 11, "other.exe"))]);
    let (live, skipped) = matching_entries(&vec![entry], &processes);
    assert!(live.is_empty());
    assert_eq!(skipped.len(), 1);
    assert!(skipped[0].contains("stale"));
}

#[test]
fn repeated_sweeps_do_not_suspend_an_already_tracked_identity() {
    let own_pids = Vec::new();
    let mut suspend_calls = Vec::new();
    let first = run_sweep(
        sweep_matching_processes(
            vec![process(42, 1, 10, "codex.exe")],
            &own_pids,
            &Vec::new(),
            None,
            1,
        ),
        |pid| {
            suspend_calls.push(pid);
            Ok(())
        },
    );
    let known = first
        .suspended
        .iter()
        .map(|entry| (entry.pid, entry.process_start_time))
        .collect();
    let second = run_sweep(
        sweep_matching_processes(
            vec![process(42, 1, 10, "codex.exe")],
            &own_pids,
            &known,
            None,
            2,
        ),
        |pid| {
            suspend_calls.push(pid);
            Ok(())
        },
    );

    assert_eq!(suspend_calls, vec![42]);
    assert_eq!(first.suspended.len(), 1);
    assert!(second.suspended.is_empty());
}

#[test]
fn duplicate_tracked_identity_resumes_and_clears_once() {
    let entry = engine(42, 10);
    let twice = vec![entry.clone(), entry.clone()];
    let processes = HashMap::from([(42, process(42, 1, 10, "codex.exe"))]);
    let mut resume_calls = Vec::new();
    let (live, stale) = matching_entries(&twice, &processes);
    let result = run_resumption(resume_matching_entries(&twice, processes), |pid| {
        resume_calls.push(pid);
        Ok(())
    });

    assert_eq!(resume_calls, vec![42]);
    assert_eq!(result.resumed, vec![entry.clone()]);
    assert!(remaining_after_resume(&twice, &live, &result.resumed).is_empty());
    assert_eq!(live.len(), 1, "the tracked entry has one durable identity");
    assert!(stale.is_empty());
}

#[test]
fn startup_reconcile_resuspends_trip_time_engines_by_default_without_sweeping_newcomers() {
    let trip_time = engine(41, 7);
    let processes = HashMap::from([
        (41, process(41, 1, 7, "codex.exe")),
        (42, process(42, 1, 8, "codex-aarch64-apple-darwin")),
    ]);
    let mut suspended = Vec::new();
    let persisted = vec![trip_time.clone()];
    let result = run_resuspension(resuspend_matching_entries(&persisted, processes), |pid| {
        suspended.push(pid);
        Ok(())
    });
    let plan = startup_reconcile_plan(true, true, false);
    assert!(plan.resuspend_persisted);
    assert!(!plan.sweep_newcomers);
    assert_eq!(result.suspended, vec![trip_time]);
    assert_eq!(
        suspended,
        vec![41],
        "only the persisted trip-time identity is re-suspended"
    );
}

#[test]
fn startup_reconcile_sweeps_trip_time_and_newcomer_engines_when_enabled() {
    let plan = startup_reconcile_plan(true, true, true);
    assert!(plan.resuspend_persisted);
    assert!(plan.sweep_newcomers);
}

#[test]
fn a_sweep_spares_its_own_processes_and_reports_failures() {
    let processes = vec![
        process(10, 1, 1, "/usr/bin/codex"),
        process(11, 10, 2, "/usr/bin/codex"),
        process(12, 1, 3, "/usr/bin/codex"),
        process(13, 1, 4, "/usr/bin/bash"),
    ];
    let mut found = descendants(&processes, &vec![10]);
    found.sort();
    assert_eq!(found, vec![10, 11]);
    let begun = sweep(Ok(processes), vec![10], 99, &Vec::new(), None, 7).expect("listed");
    let mut suspend_calls = Vec::new();
    let result = run_sweep(begun, |pid| {
        suspend_calls.push(pid);
        Err("denied".to_string())
    });
    assert_eq!(suspend_calls, vec![12]);
    assert!(result.suspended.is_empty());
    assert_eq!(result.skipped.len(), 3);
    assert_eq!(result.skipped[0], "skipped own/bundle engine /usr/bin/codex (10)");
    assert_eq!(result.skipped[1], "skipped own/bundle engine /usr/bin/codex (11)");
    assert!(result.skipped[2].contains("denied"));
}

#[test]
fn a_sweep_tries_the_engines_in_their_order() {
    let processes = vec![
        process(7, 1, 1, "/usr/bin/codex"),
        process(5, 1, 2, "/usr/bin/codex"),
        process(7, 1, 1, "/usr/bin/codex"),
        process(6, 1, 3, "/usr/bin/bash"),
        process(9, 1, 4, "/usr/bin/codex"),
    ];
    let begun = sweep_matching_processes(processes, &Vec::new(), &vec![(9, 4)], None, 3);
    let mut suspend_calls = Vec::new();
    let result = run_sweep(begun, |pid| {
        suspend_calls.push(pid);
        if pid == 5 {
            Err("gone".to_string())
        } else {
            Ok(())
        }
    });
    assert_eq!(suspend_calls, vec![7, 5]);
    assert_eq!(result.suspended.len(), 1);
    assert_eq!(result.suspended[0].pid, 7);
    assert_eq!(result.suspended[0].suspended_at, 3);
}

#[test]
fn reused_ids_are_neither_resumed_nor_suspended() {
    let entries = vec![engine(1, 1), engine(2, 2), engine(3, 3)];
    let running = HashMap::from([
        (1, process(1, 1, 9, "codex.exe")),
        (2, process(2, 1, 2, "codex.exe")),
    ]);
    let mut calls = Vec::new();
    let resumed = run_resumption(resume_matching_entries(&entries, running.clone()), |pid| {
        calls.push(pid);
        Ok(())
    });
    let suspended = run_resuspension(resuspend_matching_entries(&entries, running), |pid| {
        calls.push(pid);
        Err("denied".to_string())
    });
    assert_eq!(calls, vec![2, 2]);
    assert_eq!(resumed.resumed, vec![engine(2, 2)]);
    assert_eq!(resumed.skipped.len(), 2);
    assert!(suspended.suspended.is_empty());
    assert_eq!(suspended.skipped.len(), 3);
}

#[test]
fn own_programs_are_excluded_whatever_their_letters() {
    for name in ["codex-usage-limiter", "Codex-Usage-Limiter.EXE", "/opt/codex-code-mode-host"] {
        assert!(explicitly_excluded(PathStyle::Posix, name));
        assert!(!is_external_codex_engine(name));
    }
    assert!(!explicitly_excluded(PathStyle::Posix, "codex-usage-limiter.exe.exe"));
    assert!(!explicitly_excluded(PathStyle::Posix, "codex"));
}

#[test]
fn a_release_counts_down_after_the_process_was_closed() {
    let mut gate = ProcessGate::default();
    let first = gate.try_admit(None, "w").map_err(|_| ()).expect("open");
    let mut second = gate.try_admit(None, "w").map_err(|_| ()).expect("open");
    gate.close();
    assert_eq!(gate.active_admissions(), 2);
    second.release_inner(&mut gate);
    assert_eq!(gate.active_admissions(), 1);
    second.release_inner(&mut gate);
    assert_eq!(gate.active_admissions(), 1);
    first.release(&mut gate);
    assert_eq!(gate.active_admissions(), 0);
}

#[test]
fn nothing_is_resumed_where_the_processes_are_not_known() {
    let begun = resume(&vec![engine(1, 1)], Err("no ps".to_string()));
    let result = begun.err().expect("unknown");
    assert!(result.resumed.is_empty());
    assert!(result.skipped[0].contains("no ps"));
}

#[test]
fn merging_keeps_each_identity_once() {
    let merged = merge_suspended_entries(&vec![engine(1, 1)], &vec![engine(1, 1), engine(2, 2)]);
    assert_eq!(merged, vec![engine(1, 1), engine(2, 2)]);
}

#[test]
fn process_lists_are_parsed_line_by_line() {
    let listing = "  42  1 Mon Jan  5 10:00:00 2026 /usr/bin/codex app-server\nnonsense\n";
    let processes = parse_process_list(listing);
    assert_eq!(processes.len(), 1);
    assert_eq!(processes[0].pid, 42);
    assert_eq!(processes[0].parent_pid, 1);
    assert_eq!(processes[0].start_time, stable_start_hash("Mon Jan 5 10:00:00 2026"));
}

#[test]
fn start_hashes_are_the_64_bit_fnv() {
    assert_eq!(stable_start_hash(""), 0xcbf29ce484222325);
    assert_eq!(stable_start_hash("a"), 0xaf63dc4c8601ec8c);
}

#[test]
fn a_process_is_resumed_until_it_runs_or_often_enough() {
    assert_eq!(resume_step(1, false), ResumeStep::Resumed);
    assert_eq!(resume_step(31, true), ResumeStep::Again);
    assert_eq!(resume_step(32, true), ResumeStep::GiveUp);
}
