use codex_usage_limiter::codex::{
    build_codex_command_with_bin, build_codex_path_env, check_codex_installation,
    needs_command_interpreter, SearchSurroundings, VersionCheck,
};
use codex_usage_limiter::json::{parse_json, Json, JsonNumber};
use codex_usage_limiter::json_text::{write_json, write_json_pretty};
use codex_usage_limiter::model::{
    AccountRuntime, EpisodeKey, EpisodePolicy, PendingInterrupt, PendingLocalStart,
    PendingStartDisposition, PendingThresholdSettings, QuotaGuardActivityEntry,
    QuotaGuardActivityKind, QuotaGuardPhase, QuotaGuardRuntimeState, QuotaWindowKind,
    RateLimitSnapshot, RateLimitWindow, SuspendedExternalEngine, TerminalObservation, TurnKey,
    UnmatchedStartedTurn,
};
use codex_usage_limiter::paths::{extension, file_name, join, parent, paths_equal, PathStyle};
use codex_usage_limiter::persistence::{
    accept_schema, backup_path, first_persist_step, load_runtime, next_persist_step,
    quarantine_path, strip_retired_fields, temporary_path, LoadRuntime, PersistStep,
};
use codex_usage_limiter::protocol::{
    build_initialize_params, connected_message, message_line, notification_message,
    parse_error_message, request_message, response_message, startup_failure, stderr_message,
    InitializeOutcome,
};
use codex_usage_limiter::settings::{QuotaAction, QuotaGuardSettings};
use codex_usage_limiter::shell::{
    desktop_entry, desktop_entry_path, launch_agent, launch_agent_path, launch_path,
    registry_outcome, registry_value, tray_icon, tray_theme, TrayIcon, TrayTheme,
};
use codex_usage_limiter::state_file::{read_settings, write_settings};
use codex_usage_limiter::state_text::{parse, StateError};
use codex_usage_limiter::stored_state::persisted_text;

fn json(text: &str) -> Json {
    parse_json(text).expect("valid JSON")
}

fn turn(id: &str) -> TurnKey {
    TurnKey {
        session_epoch: "epoch".into(),
        workspace_id: "workspace".into(),
        thread_id: "thread".into(),
        turn_id: id.into(),
    }
}

fn full_account() -> AccountRuntime {
    let mut account = AccountRuntime::new("account".into(), 5);
    account.phase = QuotaGuardPhase::Tripped;
    account.snapshot = Some(RateLimitSnapshot {
        primary: Some(RateLimitWindow {
            used_percent: 100,
            window_duration_mins: Some(300),
            reset_at: Some(-4),
        }),
        secondary: None,
        credits: Some(json(r#"{"balance":1.5,"unlimited":false,"left":[1,-2,null]}"#)),
        plan_type: Some("plus".into()),
        rate_limit_reached_type: None,
        observed_at: 4,
    });
    account.local_turn_registry = vec![turn("a"), turn("b")];
    account.associated_workspace_ids = vec!["workspace".into()];
    account.activity_entries = vec![QuotaGuardActivityEntry {
        id: Some("9".into()),
        timestamp: 9,
        kind: QuotaGuardActivityKind::InterruptRequested,
        message: Some("line \"one\"\nline two".into()),
        workspace_id: Some("workspace".into()),
        thread_id: None,
        turn_id: None,
        operation_id: Some(u64::MAX),
        attempt: Some(2),
    }];
    account.suspended_external_engines =
        vec![SuspendedExternalEngine {
            pid: 4,
            process_start_time: u64::MAX,
            image_path: "/usr/bin/codex".into(),
            suspended_at: 8,
        }];
    account.last_error = Some("late".into());
    account
}

#[test]
fn what_is_written_is_read_again() {
    for text in [
        "null",
        "true",
        "18446744073709551615",
        "-9223372036854775808",
        "1.5",
        "\"a\\u0000\\\"\\\\ \\u00e9\"",
        "[]",
        "{}",
        r#"{"b":[1,{"a":null}],"a":false}"#,
    ] {
        let document = json(text);
        let compact = write_json(&document).unwrap();
        assert_eq!(json(&compact), document);
        let pretty = write_json_pretty(&document).unwrap();
        assert_eq!(json(&pretty), document);
    }
    assert_eq!(write_json(&json("[ 1 , { \"a\" : true } ]")).unwrap(), r#"[1,{"a":true}]"#);
    assert_eq!(write_json_pretty(&json("[1]")).unwrap(), "[\n  1\n]");
}

#[test]
fn numbers_keep_their_kind() {
    assert_eq!(json("7"), Json::Number(JsonNumber::Unsigned(7)));
    assert_eq!(json("-7"), Json::Number(JsonNumber::Negative(-7)));
    assert!(matches!(json("0.5"), Json::Number(JsonNumber::Decimal(_))));
    assert_eq!(json("-7").as_u64(), None);
    assert_eq!(json("9223372036854775808").as_i64(), None);
    assert!(write_json(&Json::Number(JsonNumber::Decimal("many".into()))).is_err());
}

#[test]
fn text_that_is_no_document_is_refused() {
    assert!(parse_json("{").is_err());
    assert!(parse_json("").is_err());
    assert!(parse_json("1 2").is_err());
}

#[test]
fn a_state_survives_being_written_and_read() {
    let state = QuotaGuardRuntimeState {
        lifecycle_generation: 7,
        next_operation_id: u64::MAX,
        effective_settings: Some(QuotaGuardSettings::default()),
        account: Some(full_account()),
        ..QuotaGuardRuntimeState::default()
    };
    let text = persisted_text(&state).unwrap();
    let read = parse(&text).unwrap();
    assert_eq!(read, state);
    assert_eq!(persisted_text(&read).unwrap(), text);
}

#[test]
fn what_is_only_kept_in_memory_is_not_written() {
    let mut account = full_account();
    account.fired_episodes.push(EpisodeKey::HardLimit { account_key: "account".into() });
    account.episode_policy = Some(EpisodePolicy {
        action: QuotaAction::Interrupt,
        external_suspend: true,
        prevent_new_sessions: true,
        reset_grace_minutes: 5,
    });
    account.breached_windows.push(QuotaWindowKind::Primary);
    account.pending_local_starts.push(PendingLocalStart {
        request_id: 1,
        session_epoch: "epoch".into(),
        workspace_id: "workspace".into(),
        request_thread_id: None,
        expected_thread_id: None,
        request_kind: "turn/start".into(),
        response_thread_id: None,
        response_received_at: None,
        generation: 0,
        disposition: Some(PendingStartDisposition::InterruptOnBind),
        registered_at: 0,
    });
    let state = QuotaGuardRuntimeState {
        account: Some(account),
        pending_thresholds: Some(PendingThresholdSettings {
            primary_threshold_percent: 70,
            secondary_threshold_percent: 80,
            settles_at: 12,
        }),
        ..QuotaGuardRuntimeState::default()
    };
    let read = parse(&persisted_text(&state).unwrap()).unwrap();
    assert_eq!(
        read,
        QuotaGuardRuntimeState {
            account: Some(full_account()),
            ..QuotaGuardRuntimeState::default()
        }
    );
}

#[test]
fn states_of_earlier_versions_are_read() {
    let state = parse(
        r#"{"schemaVersion":1,"lifecycleGeneration":4,"firedEpisodes":[1],"unknown":true}"#,
    )
    .unwrap();
    assert_eq!(
        state,
        QuotaGuardRuntimeState {
            schema_version: 1,
            lifecycle_generation: 4,
            ..QuotaGuardRuntimeState::default()
        }
    );
    for malformed in [
        r#"{"lifecycleGeneration":4}"#,
        "[]",
        r#"{"schemaVersion":1,"lifecycleGeneration":4,"account":7}"#,
    ] {
        assert_eq!(parse(malformed).unwrap_err(), StateError::Malformed);
    }
    assert!(matches!(parse("{"), Err(StateError::NoDocument { .. })));
    assert_eq!(
        parse(r#"{"schemaVersion":3,"lifecycleGeneration":4}"#).unwrap_err(),
        StateError::Unsupported { message: "unsupported quota guard runtime schema 3".into() }
    );
    let document = strip_retired_fields(json(
        r#"{"drainDeadline":1,"account":{"firedEpisodes":[],"drainDeadline":2,"phase":"parked"}}"#,
    ));
    assert_eq!(document, json(r#"{"drainDeadline":1,"account":{"phase":"parked"}}"#));
}

#[test]
fn settings_survive_being_written_and_read() {
    let settings = QuotaGuardSettings {
        enabled: true,
        action: QuotaAction::NotifyOnly,
        ..QuotaGuardSettings::default()
    };
    assert_eq!(read_settings(&write_settings(&settings)), Some(settings));
    assert_eq!(read_settings(&json("7")), None);
}

#[test]
fn a_later_version_is_refused() {
    let state = QuotaGuardRuntimeState { schema_version: 3, ..QuotaGuardRuntimeState::default() };
    assert_eq!(
        accept_schema(state).unwrap_err(),
        "unsupported quota guard runtime schema 3"
    );
}

#[test]
fn the_backup_is_read_where_the_state_cannot_be() {
    let style = PathStyle::Posix;
    let path = "/data/quota-guard-state.json";
    let good = || Some(QuotaGuardRuntimeState::default());
    let bad = || None;
    assert!(matches!(
        load_runtime(style, path, 1, good(), bad(), true, true),
        LoadRuntime::Valid(_)
    ));
    assert!(matches!(
        load_runtime(style, path, 1, bad(), good(), true, true),
        LoadRuntime::Valid(_)
    ));
    assert!(matches!(
        load_runtime(style, path, 1, bad(), bad(), false, false),
        LoadRuntime::Missing
    ));
    assert!(matches!(
        load_runtime(style, path, 17, bad(), bad(), true, false),
        LoadRuntime::Corrupt { quarantined_to }
            if quarantined_to == "/data/quota-guard-state.json.corrupt-17"
    ));
}

#[test]
fn the_files_beside_a_state() {
    let style = PathStyle::Posix;
    assert_eq!(backup_path(style, "/data/state.json"), "/data/state.jsonbak");
    assert_eq!(temporary_path(style, "/data/state.json"), "/data/state.jsontmp");
    assert_eq!(quarantine_path(style, "/data/state.json", -3), "/data/state.json.corrupt--3");
}

#[test]
fn a_state_is_replaced_only_once_the_new_one_is_on_disk() {
    let mut step = first_persist_step(PathStyle::Posix, "/data/state.json").unwrap();
    let mut steps = vec![step];
    while step != PersistStep::Finished {
        step = next_persist_step(step, true, true);
        steps.push(step);
    }
    assert_eq!(
        steps,
        vec![
            PersistStep::CreateDirectory,
            PersistStep::WriteTemporary,
            PersistStep::ReplaceState,
            PersistStep::RemoveBackup,
            PersistStep::Finished,
        ]
    );
    assert_eq!(
        next_persist_step(PersistStep::WriteTemporary, false, false),
        PersistStep::MoveIntoPlace
    );
    assert_eq!(
        first_persist_step(PathStyle::Posix, "/").unwrap_err(),
        "quota guard state path has no parent"
    );
}

#[test]
fn paths_are_taken_apart() {
    let posix = PathStyle::Posix;
    let windows = PathStyle::Windows;
    assert_eq!(file_name(posix, "/a/b.txt").as_deref(), Some("b.txt"));
    assert_eq!(file_name(windows, "C:\\a\\b.txt").as_deref(), Some("b.txt"));
    assert_eq!(extension(posix, "/a/b.tar.gz"), "gz");
    assert_eq!(extension(posix, "/a/.hidden"), "");
    assert_eq!(parent(posix, "/a/b").as_deref(), Some("/a"));
    assert_eq!(join(posix, "/a", "b"), "/a/b");
    assert!(paths_equal(posix, "/a/b/", "/a//b"));
    assert!(!paths_equal(posix, "/a/B", "/a/b"));
}

#[test]
fn messages_have_their_members() {
    assert_eq!(
        request_message(4, "turn/start", json("{}")),
        json(r#"{"id":4,"method":"turn/start","params":{}}"#)
    );
    assert_eq!(
        notification_message("initialized", None),
        json(r#"{"method":"initialized"}"#)
    );
    assert_eq!(
        response_message(json("\"x\""), json("1")),
        json(r#"{"id":"x","result":1}"#)
    );
    let params = build_initialize_params("1.2.3");
    assert_eq!(params.get("clientInfo").unwrap().get("version").unwrap().as_str(), Some("1.2.3"));
    assert_eq!(connected_message("w").get("method").unwrap().as_str(), Some("codex/connected"));
    assert_eq!(
        parse_error_message("e", "l").get("method").unwrap().as_str(),
        Some("codex/parseError")
    );
    assert!(stderr_message("  ").is_none());
    assert!(stderr_message("warning").is_some());
    let line = message_line(&request_message(4, "turn/start", json("{}"))).unwrap();
    assert!(line.ends_with('\n'));
    assert_eq!(
        json(&line),
        json(r#"{"id":4,"method":"turn/start","params":{}}"#)
    );
}

#[test]
fn a_silent_server_is_ended() {
    assert!(startup_failure(InitializeOutcome::Answered).is_none());
    let failed = startup_failure(InitializeOutcome::Failed { error: "no".into() }).unwrap();
    assert_eq!(failed.message, "no");
    assert!(!failed.end_server);
    assert!(startup_failure(InitializeOutcome::TimedOut).unwrap().end_server);
}

#[test]
fn the_search_path_gains_what_it_lacks() {
    let surroundings = SearchSurroundings {
        home: Some("/home/me".into()),
        app_data: None,
        local_app_data: None,
        program_data: None,
        node_bins: Vec::new(),
    };
    let paths = build_codex_path_env(
        PathStyle::Posix,
        vec!["/usr/bin".into(), "/opt/own".into()],
        &surroundings,
        Some("/srv/tools/codex"),
    )
    .unwrap();
    assert_eq!(&paths[..2], ["/usr/bin", "/opt/own"]);
    assert_eq!(paths.iter().filter(|path| *path == "/usr/bin").count(), 1);
    assert!(paths.iter().any(|path| path == "/home/me/.local/bin"));
    assert!(paths.iter().any(|path| path == "/srv/tools"));
}

#[test]
fn the_command_is_the_named_program_or_the_usual_one() {
    let command = build_codex_command_with_bin(
        Some(" /opt/codex "),
        vec!["--profile".into()],
        vec!["app-server".into()],
    );
    assert_eq!(command.program, "/opt/codex");
    assert_eq!(command.args, ["--profile", "app-server"]);
    assert_eq!(build_codex_command_with_bin(Some("  "), vec![], vec![]).program, "codex");
    assert!(needs_command_interpreter("C:\\npm\\codex.CMD"));
    assert!(!needs_command_interpreter("C:\\npm\\codex.exe"));
}

#[test]
fn each_failing_installation_is_told_apart() {
    assert_eq!(
        check_codex_installation(VersionCheck::Exited {
            success: true,
            stdout: "codex 1\n".into(),
            stderr: String::new()
        }),
        Ok(Some("codex 1".to_string()))
    );
    assert_eq!(
        check_codex_installation(VersionCheck::Exited {
            success: true,
            stdout: "\n".into(),
            stderr: String::new()
        }),
        Ok(None)
    );
    assert_eq!(
        check_codex_installation(VersionCheck::Exited {
            success: false,
            stdout: "out".into(),
            stderr: " err ".into()
        }),
        Err("Codex CLI failed to start: err. Try running `codex --version` in Terminal."
            .to_string())
    );
    assert_eq!(
        check_codex_installation(VersionCheck::Exited {
            success: false,
            stdout: String::new(),
            stderr: String::new()
        }),
        Err("Codex CLI failed to start. Try running `codex --version` in Terminal.".to_string())
    );
    assert_eq!(
        check_codex_installation(VersionCheck::NotFound),
        Err("Codex CLI not found. Install Codex and ensure `codex` is on your PATH.".to_string())
    );
    assert_eq!(
        check_codex_installation(VersionCheck::SpawnFailed { error: "denied".into() }),
        Err("denied".to_string())
    );
    assert_eq!(
        check_codex_installation(VersionCheck::TimedOut),
        Err("Timed out while checking Codex CLI. Make sure `codex --version` runs in Terminal."
            .to_string())
    );
}

#[test]
fn the_tray_shows_the_theme_and_the_trip() {
    assert_eq!(tray_theme("light"), TrayTheme::Light);
    assert_eq!(tray_icon(TrayTheme::Light, false), TrayIcon::Dark);
    assert_eq!(tray_icon(TrayTheme::Dark, false), TrayIcon::Light);
    assert_eq!(tray_icon(TrayTheme::Dark, true), TrayIcon::Gold);
}

#[test]
fn the_start_at_login_is_described_for_each_system() {
    assert_eq!(
        launch_path(Some("/apps/limiter.AppImage"), Ok("/tmp/exe".into())),
        Ok("/apps/limiter.AppImage".to_string())
    );
    assert_eq!(launch_path(Some(""), Ok("/tmp/exe".into())), Ok("/tmp/exe".to_string()));
    assert!(desktop_entry("/opt/limiter").contains("Exec=\"/opt/limiter\"\n"));
    assert!(launch_agent("/opt/limiter").contains("<string>/opt/limiter</string>"));
    assert_eq!(
        desktop_entry_path(None, Some("/home/me")).as_deref(),
        Some("/home/me/.config/autostart/codex-usage-limiter.desktop")
    );
    assert_eq!(desktop_entry_path(None, None), None);
    assert_eq!(
        launch_agent_path("/Users/me"),
        "/Users/me/Library/LaunchAgents/com.codexusagelimiter.desktop.plist"
    );
    assert_eq!(registry_value("C:\\limiter.exe"), "\"C:\\limiter.exe\"");
    assert_eq!(registry_outcome(false, false, "gone"), Ok(()));
    assert_eq!(registry_outcome(true, false, " denied "), Err("denied".to_string()));
}

#[test]
fn provisional_reports_are_bounded() {
    let mut account = AccountRuntime::new("a".into(), 1);
    for index in 0..32 {
        account
            .push_unmatched_started_turn(UnmatchedStartedTurn {
                turn: turn(&format!("{index}")),
                generation: 0,
                observed_at: 1,
            })
            .unwrap();
        account
            .push_terminal_observation(TerminalObservation {
                turn: turn(&format!("{index}")),
                generation: 0,
                status: "completed".into(),
                error: None,
                observed_at: 1,
            })
            .unwrap();
    }
    assert_eq!(
        account
            .push_unmatched_started_turn(UnmatchedStartedTurn {
                turn: turn("x"),
                generation: 0,
                observed_at: 1,
            })
            .unwrap_err(),
        "unmatched started turn buffer is full"
    );
    assert_eq!(
        account
            .push_terminal_observation(TerminalObservation {
                turn: turn("x"),
                generation: 0,
                status: "completed".into(),
                error: None,
                observed_at: 1,
            })
            .unwrap_err(),
        "terminal observation buffer is full"
    );
}

#[test]
fn a_pending_interrupt_is_kept_once_for_a_turn() {
    let mut account = AccountRuntime::new("a".into(), 1);
    for operation_id in [1, 2] {
        account.insert_pending_interrupt(PendingInterrupt {
            operation_id,
            turn: turn("t"),
            generation: 1,
            attempt: 1,
            acknowledged: false,
            ack_deadline: 5,
            completion_deadline: None,
        });
    }
    assert_eq!(account.pending_interrupt_index.len(), 1);
    account.remove_pending_interrupt(&turn("t"));
    assert!(account.pending_interrupt_index.is_empty());
}

#[test]
fn states_with_any_credits_are_loaded_as_valid() {
    let style = PathStyle::Posix;
    let path = "/data/quota-guard-state.json";
    for (credits, kept) in [
        ("null", None),
        ("0.1", Some("0.1")),
        ("[12.75, -3, {\"used\": 1e-7}]", Some("[12.75, -3, {\"used\": 1e-7}]")),
        ("1.7976931348623157e308", Some("1.7976931348623157e308")),
    ] {
        let mut account = full_account();
        account.snapshot.as_mut().unwrap().credits = Some(json(credits));
        let state = QuotaGuardRuntimeState {
            lifecycle_generation: 3,
            next_operation_id: 8,
            account: Some(account),
            ..QuotaGuardRuntimeState::default()
        };
        let read = parse(&persisted_text(&state).unwrap()).ok();
        let loaded = load_runtime(style, path, 1, read, None, true, false);
        let LoadRuntime::Valid(mut loaded) = loaded else {
            panic!("not valid: {credits}");
        };
        let found = loaded.account.as_mut().unwrap().snapshot.as_mut().unwrap().credits.take();
        assert_eq!(found.is_some(), kept.is_some());
        let mut rest = state;
        rest.account.as_mut().unwrap().snapshot.as_mut().unwrap().credits = None;
        assert_eq!(loaded, rest);
    }
}

#[test]
fn credits_of_whole_numbers_come_back_unchanged() {
    let mut account = full_account();
    let credits = json(r#"{"left":[1,-2,18446744073709551615],"plan":"x"}"#);
    account.snapshot.as_mut().unwrap().credits = Some(credits.clone());
    let state =
        QuotaGuardRuntimeState { account: Some(account), ..QuotaGuardRuntimeState::default() };
    let read = parse(&persisted_text(&state).unwrap()).unwrap();
    assert_eq!(read.account.unwrap().snapshot.unwrap().credits, Some(credits));
}

#[test]
fn the_kept_files_are_three_of_one_directory() {
    for (style, path) in [
        (PathStyle::Posix, "/data/state.json"),
        (PathStyle::Posix, "state"),
        (PathStyle::Posix, "/data/.hidden/"),
        (PathStyle::Windows, "C:\\data\\state.json"),
    ] {
        let backup = backup_path(style, path);
        let temporary = temporary_path(style, path);
        assert_ne!(backup, temporary);
        assert_ne!(file_name(style, &backup), file_name(style, path));
        assert_ne!(file_name(style, &temporary), file_name(style, path));
        assert_eq!(parent(style, &backup), parent(style, path));
        assert_eq!(parent(style, &temporary), parent(style, path));
    }
}

#[test]
fn pending_interrupts_stand_in_the_order_of_their_turns() {
    let mut account = AccountRuntime::new("a".into(), 1);
    for id in ["m", "z", "a", "mm", "\u{e9}"] {
        account.insert_pending_interrupt(PendingInterrupt {
            operation_id: 1,
            turn: turn(id),
            generation: 1,
            attempt: 1,
            acknowledged: false,
            ack_deadline: 5,
            completion_deadline: None,
        });
    }
    let ids: Vec<&str> =
        account.pending_interrupt_index.iter().map(|pending| pending.turn.turn_id.as_str()).collect();
    assert_eq!(ids, vec!["a", "m", "mm", "z", "\u{e9}"]);
    let mut sorted: Vec<String> =
        account.pending_interrupt_index.iter().map(|pending| pending.turn.stable_id()).collect();
    sorted.sort();
    let held: Vec<String> =
        account.pending_interrupt_index.iter().map(|pending| pending.turn.stable_id()).collect();
    assert_eq!(held, sorted);
}

#[test]
fn records_are_read_from_arrays_too() {
    let state = parse(
        r#"[2,7,3,["account","parked",
            [[90,null,-5],null,{"left":1},"plus",null,4],
            ["workspace"],[["epoch","workspace","thread","a"]],
            [[null,{"stateChanged":null},9,null,null,null,null,2,"text"]],
            [[4,5,"/usr/bin/codex",6]],true,null,8]]"#,
    )
    .unwrap();
    assert_eq!(state.lifecycle_generation, 7);
    assert_eq!(state.next_operation_id, 3);
    assert!(state.effective_settings.is_none());
    let account = state.account.unwrap();
    assert_eq!(account.phase, QuotaGuardPhase::Tripped);
    let snapshot = account.snapshot.unwrap();
    assert_eq!(
        snapshot.primary,
        Some(RateLimitWindow { used_percent: 90, window_duration_mins: None, reset_at: Some(-5) })
    );
    assert_eq!(snapshot.credits, Some(json(r#"{"left":1}"#)));
    assert_eq!(account.local_turn_registry, vec![turn("a")]);
    assert_eq!(account.activity_entries[0].kind, QuotaGuardActivityKind::StateChanged);
    assert_eq!(account.suspended_external_engines[0].pid, 4);
    assert!(!account.fire_at_or_above_on_next_snapshot);
    for malformed in ["[2,7,3]", "[2,7,3,null,null,null]", "[2,7,null,null]", "2"] {
        assert_eq!(parse(malformed).unwrap_err(), StateError::Malformed);
    }
    assert!(parse("[2,7,3,null]").is_ok());
}

#[test]
fn variants_are_read_from_objects_that_hold_nothing_else() {
    let entry = |kind: &str| {
        format!(
            r#"[2,7,3,["account","monitoring",null,[],[],[[null,{kind},9,null,null,null,null,null,null]],[],true,null,8]]"#
        )
    };
    assert!(parse(&entry(r#""monitorError""#)).is_ok());
    assert!(parse(&entry(r#"{"monitorError":null}"#)).is_ok());
    assert!(parse(&entry(r#"{"monitorError":1}"#)).is_err());
    assert!(parse(&entry(r#"{"monitorError":null,"stateChanged":null}"#)).is_err());
    assert!(parse(&entry("{}")).is_err());
}

#[test]
fn a_state_is_written_in_the_order_of_its_fields() {
    let mut account = AccountRuntime::new("key".into(), 5);
    account.local_turn_registry = vec![turn("a")];
    account.snapshot = Some(RateLimitSnapshot {
        primary: None,
        secondary: None,
        credits: Some(json(r#"{"b":1,"a":2}"#)),
        plan_type: None,
        rate_limit_reached_type: None,
        observed_at: 4,
    });
    let state =
        QuotaGuardRuntimeState { account: Some(account), ..QuotaGuardRuntimeState::default() };
    let text = persisted_text(&state).unwrap();
    let expected = r#"{
  "schemaVersion": 2,
  "lifecycleGeneration": 0,
  "nextOperationId": 0,
  "account": {
    "accountKey": "key",
    "phase": "monitoring",
    "snapshot": {
      "primary": null,
      "secondary": null,
      "credits": {
        "a": 2,
        "b": 1
      },
      "planType": null,
      "rateLimitReachedType": null,
      "observedAt": 4
    },
    "associatedWorkspaceIds": [],
    "localTurnRegistry": [
      {
        "sessionEpoch": "epoch",
        "workspaceId": "workspace",
        "threadId": "thread",
        "turnId": "a"
      }
    ],
    "activityEntries": [],
    "suspendedExternalEngines": [],
    "monitorHealthy": true,
    "lastError": null,
    "updatedAt": 5,
    "fireAtOrAboveOnNextSnapshot": false
  },
  "effectiveSettings": null
}"#;
    assert_eq!(text, expected);
}

#[test]
fn documents_are_read_in_the_order_of_their_names() {
    let read = json(r#"{"b":{"d":1,"c":2},"a":[{"f":1,"e":2}],"b":3}"#);
    assert_eq!(write_json(&read).unwrap(), r#"{"a":[{"e":2,"f":1}],"b":3}"#);
    let unordered = Json::Object(vec![
        ("b".into(), Json::Null),
        ("a".into(), Json::Bool(true)),
        ("b".into(), Json::Bool(false)),
    ]);
    assert_eq!(write_json(&unordered).unwrap(), r#"{"b":null,"a":true}"#);
    assert_eq!(message_line(&unordered).unwrap(), "{\"a\":true,\"b\":null}\n");
}
