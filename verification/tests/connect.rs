use codex_usage_limiter::collections::KeyedList;
use codex_usage_limiter::connect::{
    after_probe, begin_swap, bind_workspace_session, connect_workspace_core, finish_swap,
    kill_session_by_id, revoke_and_unbind_workspace, ConnectStep, SessionTable,
};
use codex_usage_limiter::events::QuotaGuardEvent;
use codex_usage_limiter::gate::{ProcessGate, ProcessPolicy};
use codex_usage_limiter::json::{parse_json, Json};
use codex_usage_limiter::protocol::request_message;
use codex_usage_limiter::request::{begin_request, wait_failure_reason, WaitFailure};
use codex_usage_limiter::routing::SessionAction;
use codex_usage_limiter::sending::{SendAction, SendStage, Sending};
use codex_usage_limiter::session::SessionState;
use std::collections::HashMap;

fn json(text: &str) -> Json {
    parse_json(text).expect("valid JSON")
}

fn empty_table() -> SessionTable {
    SessionTable { mapping: KeyedList::new(), sessions: HashMap::new() }
}

fn make_session(epoch: &str) -> SessionState {
    SessionState::new(epoch.into(), "test-home".into(), "test-owner".into(), "/tmp/owner")
}

#[test]
fn connect_workspace_is_noop_when_already_connected() {
    let mut table = empty_table();
    let mut gate = ProcessGate::default();
    table.sessions.insert(1, make_session("test-epoch"));
    table.mapping.insert("ws-1", 1);
    let mut spawn_calls = 0;

    let step = connect_workspace_core(&table, "ws-1");
    assert_eq!(step, ConnectStep::ProbeOwn { session: 1 });
    let (step, events) = after_probe(&mut table, &mut gate, step, true, "ws-1", "/tmp");
    if step == ConnectStep::Spawn {
        spawn_calls += 1;
    }
    assert_eq!(step, ConnectStep::Connected);
    assert!(events.is_empty());
    assert_eq!(spawn_calls, 0);
}

#[test]
fn connect_workspace_spawns_when_not_connected() {
    let mut table = empty_table();
    let mut gate = ProcessGate::default();
    let mut spawn_calls = 0;

    let step = connect_workspace_core(&table, "ws-2");
    if step == ConnectStep::Spawn {
        spawn_calls += 1;
        table.sessions.insert(1, make_session("test-epoch"));
        bind_workspace_session(&mut table, &mut gate, 1, "ws-2", Some("/tmp"));
    }

    assert_eq!(spawn_calls, 1);
    assert!(table.mapping.get("ws-2").is_some());
    kill_session_by_id(&mut table, &mut gate, "ws-2");
    assert!(table.mapping.get("ws-2").is_none());
}

#[test]
fn a_dead_session_loses_its_workspaces_and_another_is_started() {
    let mut table = empty_table();
    let mut gate = ProcessGate::default();
    table.sessions.insert(1, make_session("test-epoch"));
    bind_workspace_session(&mut table, &mut gate, 1, "ws-1", Some("/tmp/1"));
    let step = connect_workspace_core(&table, "ws-2");
    assert_eq!(step, ConnectStep::ProbeShared { session: 1 });
    let (step, events) = after_probe(&mut table, &mut gate, step, false, "ws-2", "/tmp/2");
    assert_eq!(step, ConnectStep::Spawn);
    assert!(table.mapping.get("ws-1").is_none());
    assert!(events
        .iter()
        .any(|event| matches!(event, QuotaGuardEvent::WorkspaceDisconnected { .. })));
}

#[test]
fn replacement_revokes_retained_old_epoch_before_mapping_fresh_closed_epoch() {
    let mut table = empty_table();
    let mut gate = ProcessGate::default();
    gate.set_policy(ProcessPolicy::EnabledOpen);
    table.sessions.insert(1, make_session("old-epoch"));
    bind_workspace_session(&mut table, &mut gate, 1, "ws-replace", Some("/tmp"));
    gate.set_epoch_open("old-epoch", "ws-replace", true);
    assert!(gate.status(Some("old-epoch"), "ws-replace").open);

    table.sessions.insert(2, make_session("fresh-epoch"));
    let workspaces = vec![("ws-replace".to_string(), Some("/tmp".to_string()))];
    let (replacing, _) = begin_swap(&mut table, &mut gate, 1, &workspaces);
    assert!(!gate.status(Some("old-epoch"), "ws-replace").open);
    finish_swap(&mut table, &mut gate, 1, 2, &replacing);

    assert!(!gate.status(Some("old-epoch"), "ws-replace").open);
    assert_eq!(table.mapping.get("ws-replace"), Some(&2));
    assert!(table.sessions[&2].is_workspace_bound("ws-replace"));
    assert!(!gate.status(Some("fresh-epoch"), "ws-replace").open);
}

#[test]
fn bind_inserts_before_committing_and_is_idempotent() {
    let mut table = empty_table();
    let mut gate = ProcessGate::default();
    gate.set_policy(ProcessPolicy::EnabledOpen);
    table.sessions.insert(1, make_session("test-epoch"));

    bind_workspace_session(&mut table, &mut gate, 1, "ws-bind", Some("/tmp"));
    assert_eq!(table.mapping.get("ws-bind"), Some(&1));
    assert!(table.sessions[&1].is_workspace_bound("ws-bind"));
    assert!(!gate.status(Some("test-epoch"), "ws-bind").open);

    bind_workspace_session(&mut table, &mut gate, 1, "ws-bind", Some("/tmp"));
    assert_eq!(table.sessions[&1].bound_workspace_ids.to_vec().len(), 1);

    gate.set_epoch_open("test-epoch", "ws-bind", true);
    let (removed, _) = revoke_and_unbind_workspace(&mut table, &mut gate, "ws-bind");
    assert_eq!(removed, Some(1));
    assert!(!gate.status(Some("test-epoch"), "ws-bind").open);
}

#[test]
fn inference_is_blocked_before_request_registration() {
    let mut table = empty_table();
    let mut gate = ProcessGate::default();
    table.sessions.insert(1, make_session("test-epoch"));
    bind_workspace_session(&mut table, &mut gate, 1, "ws-blocked", Some("/tmp"));
    gate.set_policy(ProcessPolicy::EnabledClosed);

    let session = &table.sessions[&1];
    let error = begin_request(
        session,
        &mut gate,
        1,
        "ws-blocked",
        "turn/start",
        json(r#"{ "threadId": "thread-1" }"#),
        false,
    )
    .map(|_| ())
    .expect_err("closed guard blocks inference");
    assert!(error.starts_with("QUOTA_GUARD_BLOCKED|"));
    assert!(session.request_context.is_empty());
    assert_eq!(gate.active_admissions(), 0);
}

#[test]
fn a_request_is_admitted_recorded_and_answered() {
    let mut gate = ProcessGate::default();
    let mut session = make_session("test-epoch");
    session.bind_workspace(&mut gate, "ws", Some("/tmp/ws"));
    let mut request = begin_request(
        &session,
        &mut gate,
        7,
        "ws",
        "turn/start",
        json(r#"{ "threadId": "thread-1" }"#),
        false,
    )
    .expect("open");
    assert_eq!(gate.active_admissions(), 1);
    assert!(matches!(
        request.start_event(&session),
        Some(QuotaGuardEvent::PendingLocalStart { request_id: 7, expected_thread_id: Some(thread), .. })
            if thread == "thread-1"
    ));
    request.start_recorded(&mut session, &mut gate, Ok(())).expect("recorded");
    request.written(&mut gate);
    assert_eq!(gate.active_admissions(), 0);
    let actions = session.handle_line(r#"{"id":7,"result":{"turn":{"id":"turn-1"}}}"#);
    assert!(actions
        .iter()
        .any(|action| matches!(action, SessionAction::Deliver { request_id: 7 })));
    assert!(session.request_context.is_empty());
}

#[test]
fn a_request_of_an_unbound_workspace_is_refused() {
    let mut gate = ProcessGate::default();
    let session = make_session("test-epoch");
    let error = begin_request(&session, &mut gate, 1, "ws", "model/list", Json::Null, false)
        .map(|_| ())
        .unwrap_err();
    assert_eq!(error, "workspace session is not bound to this workspace");
}

#[test]
fn a_start_that_cannot_be_recorded_closes_its_workspace() {
    let mut gate = ProcessGate::default();
    gate.set_policy(ProcessPolicy::EnabledOpen);
    let mut session = make_session("test-epoch");
    session.bind_workspace(&mut gate, "ws", Some("/tmp/ws"));
    gate.set_epoch_open("test-epoch", "ws", true);
    let mut request =
        begin_request(&session, &mut gate, 7, "ws", "turn/start", json("{}"), false).expect("open");
    assert!(request
        .start_recorded(&mut session, &mut gate, Err("disk full".to_string()))
        .is_err());
    assert!(!gate.status(Some("test-epoch"), "ws").open);
    assert_eq!(gate.active_admissions(), 0);
}

#[test]
fn lines_that_are_no_json_are_shown() {
    let mut session = make_session("test-epoch");
    let actions = session.handle_line("not json");
    assert!(matches!(&actions[..], [SessionAction::Emit { workspace_id, .. }] if workspace_id == "test-owner"));
    assert!(session.handle_line("   ").is_empty());
}

#[test]
fn a_changed_owner_is_reported_after_the_gate_is_closed() {
    let mut gate = ProcessGate::default();
    let mut session = make_session("test-epoch");
    session.bind_workspace(&mut gate, "ws", Some("/tmp/ws"));
    let actions = session.handle_line(r#"{"method":"account/updated","params":{}}"#);
    let closed = actions
        .iter()
        .position(|action| matches!(action, SessionAction::CloseForIdentityChange))
        .expect("closed");
    let reported = actions
        .iter()
        .position(|action| {
            matches!(
                action,
                SessionAction::Observe { event: QuotaGuardEvent::AccountIdentityChanged { .. } }
            )
        })
        .expect("reported");
    assert!(closed < reported);
}

#[test]
fn unanswered_requests_say_why() {
    assert_eq!(wait_failure_reason(WaitFailure::Canceled), "request canceled");
    assert_eq!(
        wait_failure_reason(WaitFailure::TimedOut),
        "request timed out after 300 seconds"
    );
}

fn sending_turn() -> (SessionState, ProcessGate, Sending, SendAction) {
    let mut gate = ProcessGate::default();
    gate.set_policy(ProcessPolicy::EnabledOpen);
    let mut session = make_session("test-epoch");
    session.bind_workspace(&mut gate, "ws", Some("/tmp/ws"));
    gate.set_epoch_open("test-epoch", "ws", true);
    let params = json(r#"{ "threadId": "thread-1" }"#);
    let (sending, action) =
        Sending::begin(&mut session, &mut gate, 7, "ws", "turn/start", params, false)
            .expect("admitted");
    (session, gate, sending, action)
}

#[test]
fn a_start_is_recorded_before_it_is_written() {
    let (mut session, mut gate, mut sending, action) = sending_turn();
    assert!(matches!(action, SendAction::Record { .. }));
    assert!(session.request_context.is_empty());
    assert_eq!(gate.active_admissions(), 1);
    let action = sending.step(&mut session, &mut gate, Ok(()));
    assert_eq!(
        action,
        SendAction::Write {
            message: request_message(7, "turn/start", json(r#"{ "threadId": "thread-1" }"#))
        }
    );
    assert!(session.request_context.contains_key(&7));
    assert_eq!(gate.active_admissions(), 1);
    assert_eq!(sending.step(&mut session, &mut gate, Ok(())), SendAction::Wait);
    assert_eq!(gate.active_admissions(), 0);
    assert_eq!(sending.step(&mut session, &mut gate, Ok(())), SendAction::Done);
    assert_eq!(sending.stage, SendStage::Ended);
}

#[test]
fn a_failed_request_records_the_failure_of_its_start() {
    let (mut session, mut gate, mut sending, _) = sending_turn();
    sending.step(&mut session, &mut gate, Ok(()));
    let action = sending.step(&mut session, &mut gate, Err("pipe closed".to_string()));
    assert_eq!(
        action,
        SendAction::RecordFailure {
            event: QuotaGuardEvent::StartFailed {
                request_id: 7,
                session_epoch: "test-epoch".into(),
                workspace_id: "ws".into(),
                reason: "pipe closed".into(),
            }
        }
    );
    assert!(session.request_context.is_empty());
    let action = sending.step(&mut session, &mut gate, Err("disk full".to_string()));
    assert_eq!(
        action,
        SendAction::Failed {
            message: "pipe closed; quota guard could not persist failed local start: disk full"
                .into()
        }
    );
    assert!(!gate.status(Some("test-epoch"), "ws").open);
    assert_eq!(gate.active_admissions(), 0);
}

#[test]
fn a_request_without_a_start_is_written_at_once() {
    let mut gate = ProcessGate::default();
    gate.set_policy(ProcessPolicy::EnabledClosed);
    let mut session = make_session("test-epoch");
    session.bind_workspace(&mut gate, "ws", Some("/tmp/ws"));
    let (mut sending, action) =
        Sending::begin(&mut session, &mut gate, 8, "ws", "model/list", Json::Null, false)
            .expect("no inference");
    assert!(matches!(action, SendAction::Write { .. }));
    assert_eq!(sending.step(&mut session, &mut gate, Ok(())), SendAction::Wait);
    let reason = wait_failure_reason(WaitFailure::TimedOut);
    assert_eq!(
        sending.step(&mut session, &mut gate, Err(reason.clone())),
        SendAction::Failed { message: reason }
    );
    assert!(session.request_context.is_empty());
}

#[test]
fn an_abandoned_request_no_longer_counts() {
    let (mut session, mut gate, mut sending, _) = sending_turn();
    gate.close();
    assert_eq!(gate.active_admissions(), 1);
    sending.abandon(&mut gate);
    assert_eq!(gate.active_admissions(), 0);
    sending.abandon(&mut gate);
    assert_eq!(gate.active_admissions(), 0);
    assert_eq!(sending.step(&mut session, &mut gate, Ok(())), SendAction::Done);
}
