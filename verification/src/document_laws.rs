//! How the state is written down and read, and how it is shown, stated on the members of the
//! documents.

use crate::json::JsonView;
use crate::members::{
    optional_signed_document, optional_text_document, optional_unsigned_document, signed_document,
    unsigned_document,
};
use crate::model::{
    ActivityView, QuotaGuardActivityKind, QuotaGuardPhase, QuotaWindowKind, RateLimitWindow,
    SnapshotView,
};
use crate::persistence::current_document;
use crate::public_document::{public_members, shows, shows_admissions};
use crate::public_state::{AdmissionView, PublicStateView};
use crate::settings::{QuotaAction, QuotaGuardSettings};
use crate::state_file::{
    account_document, account_in, action_named, activity_document, activity_in, engine_document,
    engine_in, kind_named, optional_account_document, optional_settings_document,
    optional_snapshot_document, optional_window_document, settings_document, settings_in,
    snapshot_document, snapshot_in, state_document, state_in, turn_document, turn_in,
    window_document, window_in, EngineView, KeptAccount, KeptState, TurnView,
};
use crate::state_text::{state_in_text, state_of, StateFault};
use crate::text::decimal;
use vstd::prelude::*;

verus! {

/// Numbers, texts and what may be absent are written as what they are; what is absent is null.
pub proof fn what_is_absent_is_null(n: u64, m: i64, s: Seq<char>)
    ensures
        unsigned_document(n) == JsonView::Unsigned(n),
        m >= 0 ==> signed_document(m) == JsonView::Unsigned(m as u64),
        m < 0 ==> signed_document(m) == JsonView::Negative(m),
        optional_unsigned_document(Some(n)) == JsonView::Unsigned(n),
        optional_unsigned_document(None) == JsonView::Null,
        optional_signed_document(Some(m)) == signed_document(m),
        optional_signed_document(None) == JsonView::Null,
        optional_text_document(Some(s)) == JsonView::Text(s),
        optional_text_document(None) == JsonView::Null,
        optional_account_document(None) == JsonView::Null,
        optional_settings_document(None) == JsonView::Null,
        optional_snapshot_document(None) == JsonView::Null,
        optional_window_document(None) == JsonView::Null,
{
}

/// A turn is written as its four names, in order.
pub proof fn a_turn_is_written_as_its_names(turn: TurnView)
    ensures
        turn_document(turn) matches JsonView::Object(e) && e.len() == 4 && e[0] == (
            "sessionEpoch"@,
            JsonView::Text(turn.session_epoch),
        ) && e[1] == ("workspaceId"@, JsonView::Text(turn.workspace_id)) && e[2] == (
            "threadId"@,
            JsonView::Text(turn.thread_id),
        ) && e[3] == ("turnId"@, JsonView::Text(turn.turn_id)),
{
}

/// A turn is read from its four names, all of which must be texts.
pub proof fn a_turn_is_read_from_its_names(
    value: JsonView,
    epoch: Seq<char>,
    workspace: Seq<char>,
    thread: Seq<char>,
    turn: Seq<char>,
)
    requires
        value is Object,
    ensures
        value.get("sessionEpoch"@) == Some(JsonView::Text(epoch)) && value.get("workspaceId"@)
            == Some(JsonView::Text(workspace)) && value.get("threadId"@) == Some(
            JsonView::Text(thread),
        ) && value.get("turnId"@) == Some(JsonView::Text(turn)) ==> turn_in(value) == Some(
            TurnView {
                session_epoch: epoch,
                workspace_id: workspace,
                thread_id: thread,
                turn_id: turn,
            },
        ),
        value.get("sessionEpoch"@) is None || value.get("workspaceId"@) is None || value.get(
            "threadId"@,
        ) is None || value.get("turnId"@) is None ==> turn_in(value) is None,
{
}

/// A suspended engine is written as its number, its start, its program and the time.
pub proof fn an_engine_is_written_with_its_identity(engine: EngineView)
    ensures
        engine_document(engine) matches JsonView::Object(e) && e.len() == 4 && e[0] == (
            "pid"@,
            JsonView::Unsigned(engine.pid as u64),
        ) && e[1] == ("processStartTime"@, JsonView::Unsigned(engine.process_start_time)) && e[2]
            == ("imagePath"@, JsonView::Text(engine.image_path)) && e[3] == (
            "suspendedAt"@,
            signed_document(engine.suspended_at),
        ),
{
}

/// A suspended engine is read from its number, its start, its program and the time.
pub proof fn an_engine_is_read_with_its_identity(
    value: JsonView,
    pid: u32,
    start: u64,
    path: Seq<char>,
    time: i64,
)
    requires
        value is Object,
        value.get("pid"@) == Some(JsonView::Unsigned(pid as u64)),
        value.get("processStartTime"@) == Some(JsonView::Unsigned(start)),
        value.get("imagePath"@) == Some(JsonView::Text(path)),
        value.get("suspendedAt"@) == Some(signed_document(time)),
    ensures
        engine_in(value) == Some(
            EngineView {
                pid,
                process_start_time: start,
                image_path: path,
                suspended_at: time,
            },
        ),
{
}

/// A window is written as its use, its length and its reset.
pub proof fn a_window_is_written_with_its_use(window: RateLimitWindow)
    ensures
        window_document(window) matches JsonView::Object(e) && e.len() == 3 && e[0] == (
            "usedPercent"@,
            JsonView::Unsigned(window.used_percent as u64),
        ) && e[1] == ("windowDurationMins"@, optional_unsigned_document(window.window_duration_mins))
            && e[2] == ("resetsAt"@, optional_signed_document(window.reset_at)),
        optional_window_document(Some(window)) == window_document(window),
{
}

/// A window is read from its use; its length and its reset may be absent or null.
pub proof fn a_window_is_read_with_its_use(value: JsonView, used: u8, length: u64, reset: i64)
    requires
        value is Object,
        value.get("usedPercent"@) == Some(JsonView::Unsigned(used as u64)),
    ensures
        ({
            let length_given = value.get("windowDurationMins"@) == Some(
                JsonView::Unsigned(length),
            );
            let length_absent = value.get("windowDurationMins"@) is None || value.get(
                "windowDurationMins"@,
            ) == Some(JsonView::Null);
            let reset_given = value.get("resetsAt"@) == Some(signed_document(reset));
            let reset_absent = value.get("resetsAt"@) is None || value.get("resetsAt"@) == Some(
                JsonView::Null,
            );
            (length_given || length_absent) && (reset_given || reset_absent) ==> window_in(value)
                == Some(
                RateLimitWindow {
                    used_percent: used,
                    window_duration_mins: if length_given { Some(length) } else { None },
                    reset_at: if reset_given { Some(reset) } else { None },
                },
            )
        }),
{
}

/// A snapshot is written as its two windows, its credits, the plan, the limit that is reached and
/// the time.
pub proof fn a_snapshot_is_written_with_its_windows(snapshot: SnapshotView)
    ensures
        snapshot_document(snapshot) matches JsonView::Object(e) && e.len() == 6 && e[0] == (
            "primary"@,
            optional_window_document(snapshot.primary),
        ) && e[1] == ("secondary"@, optional_window_document(snapshot.secondary)) && e[2].0
            == "credits"@ && e[2].1 == (if snapshot.credits is Some {
            snapshot.credits->0
        } else {
            JsonView::Null
        }) && e[3] == ("planType"@, optional_text_document(snapshot.plan_type)) && e[4] == (
            "rateLimitReachedType"@,
            optional_text_document(snapshot.rate_limit_reached_type),
        ) && e[5] == ("observedAt"@, signed_document(snapshot.observed_at)),
        optional_snapshot_document(Some(snapshot)) == snapshot_document(snapshot),
{
}

/// A snapshot is read from its two windows, its credits, the plan, the limit that is reached and
/// the time; all but the time may be absent.
pub proof fn a_snapshot_is_read_with_its_windows(
    value: JsonView,
    primary: RateLimitWindow,
    secondary: RateLimitWindow,
    plan: Seq<char>,
    reached: Seq<char>,
    time: i64,
)
    requires
        value is Object,
        value.get("observedAt"@) == Some(signed_document(time)),
        value.get("primary"@) is None || (value.get("primary"@)->0 is Object && window_in(
            value.get("primary"@)->0,
        ) == Some(primary)),
        value.get("secondary"@) is None || (value.get("secondary"@)->0 is Object && window_in(
            value.get("secondary"@)->0,
        ) == Some(secondary)),
        value.get("planType"@) is None || value.get("planType"@) == Some(JsonView::Text(plan)),
        value.get("rateLimitReachedType"@) is None || value.get("rateLimitReachedType"@) == Some(
            JsonView::Text(reached),
        ),
        value.get("credits"@) != Some(JsonView::Null),
    ensures
        snapshot_in(value) == Some(
            SnapshotView {
                primary: if value.get("primary"@) is Some { Some(primary) } else { None },
                secondary: if value.get("secondary"@) is Some { Some(secondary) } else { None },
                credits: value.get("credits"@),
                plan_type: if value.get("planType"@) is Some { Some(plan) } else { None },
                rate_limit_reached_type: if value.get("rateLimitReachedType"@) is Some {
                    Some(reached)
                } else {
                    None
                },
                observed_at: time,
            },
        ),
{
}

/// Each kind of activity has its name, and no other name is one's.
pub proof fn kinds_of_activity_have_their_names(name: Seq<char>)
    ensures
        ({
            let kind = kind_named(name);
            &&& kind is Some ==> name == "stateChanged"@ || name == "notificationSent"@ || name
                == "notificationFailed"@ || name == "interruptRequested"@ || name
                == "interruptAcknowledged"@ || name == "interruptCompleted"@ || name
                == "monitorError"@ || name == "externalEngineSuspended"@ || name
                == "externalEngineResumed"@ || name == "externalEngineSkipped"@
            &&& kind == Some(QuotaGuardActivityKind::StateChanged) ==> name == "stateChanged"@
            &&& kind == Some(QuotaGuardActivityKind::NotificationSent) ==> name
                == "notificationSent"@
            &&& kind == Some(QuotaGuardActivityKind::NotificationFailed) ==> name
                == "notificationFailed"@
            &&& kind == Some(QuotaGuardActivityKind::InterruptRequested) ==> name
                == "interruptRequested"@
            &&& kind == Some(QuotaGuardActivityKind::InterruptAcknowledged) ==> name
                == "interruptAcknowledged"@
            &&& kind == Some(QuotaGuardActivityKind::InterruptCompleted) ==> name
                == "interruptCompleted"@
            &&& kind == Some(QuotaGuardActivityKind::MonitorError) ==> name == "monitorError"@
            &&& kind == Some(QuotaGuardActivityKind::ExternalEngineSuspended) ==> name
                == "externalEngineSuspended"@
            &&& kind == Some(QuotaGuardActivityKind::ExternalEngineResumed) ==> name
                == "externalEngineResumed"@
            &&& kind == Some(QuotaGuardActivityKind::ExternalEngineSkipped) ==> name
                == "externalEngineSkipped"@
        }),
{
}

/// An entry of the activity is written with its kind, its time and what it concerns.
pub proof fn activity_is_written_with_its_kind(entry: ActivityView)
    ensures
        activity_document(entry) matches JsonView::Object(e) && e.len() == 9 && e[0] == (
            "id"@,
            optional_text_document(entry.id),
        ) && e[1].0 == "kind"@ && (e[1].1 matches JsonView::Text(name) && kind_named(name) == Some(
            entry.kind,
        )) && e[2] == ("timestamp"@, signed_document(entry.timestamp)) && e[3] == (
            "operationId"@,
            optional_unsigned_document(entry.operation_id),
        ) && e[4] == ("workspaceId"@, optional_text_document(entry.workspace_id)) && e[5] == (
            "threadId"@,
            optional_text_document(entry.thread_id),
        ) && e[6] == ("turnId"@, optional_text_document(entry.turn_id)) && e[7].0 == "attempt"@
            && e[7].1 == (match entry.attempt {
            Some(n) => JsonView::Unsigned(n as u64),
            None => JsonView::Null,
        }) && e[8] == ("message"@, optional_text_document(entry.message)),
{
    crate::state_file::kinds_are_read_back(entry.kind);
}

/// An entry of the activity is read from its kind and its time; what it concerns may be absent.
pub proof fn activity_is_read_with_its_kind(
    value: JsonView,
    name: Seq<char>,
    time: i64,
    operation: u64,
    attempt: u8,
    text: Seq<char>,
)
    requires
        value is Object,
        value.get("kind"@) == Some(JsonView::Text(name)),
        kind_named(name) is Some,
        value.get("timestamp"@) == Some(signed_document(time)),
        value.get("operationId"@) is None || value.get("operationId"@) == Some(
            JsonView::Unsigned(operation),
        ),
        value.get("attempt"@) is None || value.get("attempt"@) == Some(
            JsonView::Unsigned(attempt as u64),
        ),
        value.get("id"@) is None || value.get("id"@) == Some(JsonView::Text(text)),
        value.get("workspaceId"@) is None || value.get("workspaceId"@) == Some(
            JsonView::Text(text),
        ),
        value.get("threadId"@) is None || value.get("threadId"@) == Some(JsonView::Text(text)),
        value.get("turnId"@) is None || value.get("turnId"@) == Some(JsonView::Text(text)),
        value.get("message"@) is None || value.get("message"@) == Some(JsonView::Text(text)),
    ensures
        ({
            let given = |key: Seq<char>| if value.get(key) is Some { Some(text) } else { None };
            activity_in(value) == Some(
                ActivityView {
                    id: given("id"@),
                    kind: kind_named(name)->0,
                    timestamp: time,
                    operation_id: if value.get("operationId"@) is Some {
                        Some(operation)
                    } else {
                        None
                    },
                    workspace_id: given("workspaceId"@),
                    thread_id: given("threadId"@),
                    turn_id: given("turnId"@),
                    attempt: if value.get("attempt"@) is Some { Some(attempt) } else { None },
                    message: given("message"@),
                },
            )
        }),
{
}

/// Settings are written with their switches, the action, the thresholds and the times.
pub proof fn settings_are_written_with_their_thresholds(settings: QuotaGuardSettings)
    ensures
        settings_document(settings) matches JsonView::Object(e) && e.len() == 9 && e[0] == (
            "enabled"@,
            JsonView::Bool(settings.enabled),
        ) && e[1] == ("armed"@, JsonView::Bool(settings.armed)) && e[2] == (
            "action"@,
            JsonView::Text(
                match settings.action {
                    QuotaAction::NotifyOnly => "notifyOnly"@,
                    QuotaAction::Interrupt => "interrupt"@,
                    QuotaAction::Block => "block"@,
                },
            ),
        ) && e[3] == (
            "primaryThresholdPercent"@,
            JsonView::Unsigned(settings.primary_threshold_percent as u64),
        ) && e[4] == (
            "secondaryThresholdPercent"@,
            JsonView::Unsigned(settings.secondary_threshold_percent as u64),
        ) && e[5] == (
            "rearmAfterResetPercentLeft"@,
            match settings.rearm_after_reset_percent_left {
                Some(n) => JsonView::Unsigned(n as u64),
                None => JsonView::Null,
            },
        ) && e[6] == (
            "drainTimeoutMinutes"@,
            JsonView::Unsigned(settings.drain_timeout_minutes as u64),
        ) && e[7] == (
            "resetGraceMinutes"@,
            JsonView::Unsigned(settings.reset_grace_minutes as u64),
        ) && e[8] == ("notifyWhenAvailable"@, JsonView::Bool(settings.notify_when_available)),
        optional_settings_document(Some(settings)) == settings_document(settings),
{
}

/// Settings are read with their switches, the action, the thresholds and the times; only the share
/// that rearms may be absent.
pub proof fn settings_are_read_with_their_thresholds(
    value: JsonView,
    settings: QuotaGuardSettings,
    name: Seq<char>,
)
    requires
        value is Object,
        value.get("enabled"@) == Some(JsonView::Bool(settings.enabled)),
        value.get("armed"@) == Some(JsonView::Bool(settings.armed)),
        value.get("action"@) == Some(JsonView::Text(name)),
        action_named(name) == Some(settings.action),
        value.get("primaryThresholdPercent"@) == Some(
            JsonView::Unsigned(settings.primary_threshold_percent as u64),
        ),
        value.get("secondaryThresholdPercent"@) == Some(
            JsonView::Unsigned(settings.secondary_threshold_percent as u64),
        ),
        value.get("rearmAfterResetPercentLeft"@) is None
            && settings.rearm_after_reset_percent_left is None || (
        settings.rearm_after_reset_percent_left is Some && value.get("rearmAfterResetPercentLeft"@)
            == Some(JsonView::Unsigned(settings.rearm_after_reset_percent_left->0 as u64))),
        value.get("drainTimeoutMinutes"@) == Some(
            JsonView::Unsigned(settings.drain_timeout_minutes as u64),
        ),
        value.get("resetGraceMinutes"@) == Some(
            JsonView::Unsigned(settings.reset_grace_minutes as u64),
        ),
        value.get("notifyWhenAvailable"@) == Some(JsonView::Bool(settings.notify_when_available)),
    ensures
        settings_in(value) == Some(settings),
{
}

/// The actions have their three names, and no other name is one's.
pub proof fn actions_have_their_names(name: Seq<char>)
    ensures
        action_named(name) == Some(QuotaAction::NotifyOnly) <==> name == "notifyOnly"@,
        action_named(name) == Some(QuotaAction::Interrupt) ==> name == "interrupt"@,
        action_named(name) == Some(QuotaAction::Block) ==> name == "block"@,
        action_named(name) is None <==> name != "notifyOnly"@ && name != "interrupt"@ && name
            != "block"@,
{
}

/// A phase is known by its name, and by the names that earlier states were kept under; no other
/// name is one's.
pub proof fn phases_are_known_by_earlier_names_too(name: Seq<char>)
    ensures
        ({
            let phase = QuotaGuardPhase::named(name);
            &&& phase is None <==> name != "disabled"@ && name != "monitoring"@ && name != "ready"@
                && name != "revalidatingIdentity"@ && name != "tripped"@ && name != "interrupting"@
                && name != "parked"@ && name != "verifyingReset"@ && name
                != "interventionRequired"@
            &&& phase == Some(QuotaGuardPhase::Disabled) ==> name == "disabled"@
            &&& phase == Some(QuotaGuardPhase::Monitoring) ==> name == "monitoring"@ || name
                == "ready"@ || name == "revalidatingIdentity"@
            &&& phase == Some(QuotaGuardPhase::Tripped) ==> name == "tripped"@ || name
                == "interrupting"@ || name == "parked"@ || name == "verifyingReset"@
            &&& phase == Some(QuotaGuardPhase::InterventionRequired) ==> name
                == "interventionRequired"@
        }),
{
}

/// An account is written with its key, its phase, what was read, whom it concerns, what it owns and
/// whether all is well.
pub proof fn an_account_is_written_with_what_is_kept(account: KeptAccount)
    ensures
        account_document(account) matches JsonView::Object(e) && e.len() == 11 && e[0] == (
            "accountKey"@,
            JsonView::Text(account.account_key),
        ) && e[1].0 == "phase"@ && (e[1].1 matches JsonView::Text(name) && QuotaGuardPhase::named(
            name,
        ) == Some(account.phase)) && e[2] == (
            "snapshot"@,
            optional_snapshot_document(account.snapshot),
        ) && e[3].0 == "associatedWorkspaceIds"@ && (e[3].1 matches JsonView::Array(items)
            && items.len() == account.associated_workspace_ids.len() && forall|i: int|
            0 <= i < items.len() ==> #[trigger] items[i] == JsonView::Text(
                account.associated_workspace_ids[i],
            )) && e[4].0 == "localTurnRegistry"@ && (e[4].1 matches JsonView::Array(items)
            && items.len() == account.local_turn_registry.len() && forall|i: int|
            0 <= i < items.len() ==> #[trigger] items[i] == turn_document(
                account.local_turn_registry[i],
            )) && e[5].0 == "activityEntries"@ && (e[5].1 matches JsonView::Array(items)
            && items.len() == account.activity_entries.len() && forall|i: int|
            0 <= i < items.len() ==> #[trigger] items[i] == activity_document(
                account.activity_entries[i],
            )) && e[6].0 == "suspendedExternalEngines"@ && (e[6].1 matches JsonView::Array(items)
            && items.len() == account.suspended_external_engines.len() && forall|i: int|
            0 <= i < items.len() ==> #[trigger] items[i] == engine_document(
                account.suspended_external_engines[i],
            )) && e[7] == ("monitorHealthy"@, JsonView::Bool(account.monitor_healthy)) && e[8] == (
            "lastError"@,
            optional_text_document(account.last_error),
        ) && e[9] == ("updatedAt"@, signed_document(account.updated_at)) && e[10] == (
            "fireAtOrAboveOnNextSnapshot"@,
            JsonView::Bool(account.fire_at_or_above_on_next_snapshot),
        ),
        optional_account_document(Some(account)) == account_document(account),
{
    crate::public_state::phase_names_are_read_back(account.phase);
}

/// An account is read from its members; the activity, the suspended engines and whether the next
/// reading may fire may be absent, and the last is false then.
pub proof fn an_account_is_read_with_what_is_kept(
    value: JsonView,
    key: Seq<char>,
    name: Seq<char>,
    error: Seq<char>,
    healthy: bool,
    time: i64,
    workspaces: Seq<JsonView>,
    turns: Seq<JsonView>,
    engines: Seq<JsonView>,
    fires: bool,
)
    requires
        value is Object,
        value.get("accountKey"@) == Some(JsonView::Text(key)),
        value.get("phase"@) == Some(JsonView::Text(name)),
        QuotaGuardPhase::named(name) is Some,
        value.get("snapshot"@) is None,
        value.get("associatedWorkspaceIds"@) == Some(JsonView::Array(workspaces)),
        forall|i: int| 0 <= i < workspaces.len() ==> (#[trigger] workspaces[i]) is Text,
        value.get("localTurnRegistry"@) == Some(JsonView::Array(turns)),
        forall|i: int| 0 <= i < turns.len() ==> turn_in(#[trigger] turns[i]) is Some,
        value.get("activityEntries"@) is None,
        value.get("suspendedExternalEngines"@) is None || (value.get("suspendedExternalEngines"@)
            == Some(JsonView::Array(engines)) && forall|i: int|
            0 <= i < engines.len() ==> engine_in(#[trigger] engines[i]) is Some),
        value.get("monitorHealthy"@) == Some(JsonView::Bool(healthy)),
        value.get("lastError"@) is None || value.get("lastError"@) == Some(JsonView::Text(error)),
        value.get("updatedAt"@) == Some(signed_document(time)),
        value.get("fireAtOrAboveOnNextSnapshot"@) is None || value.get(
            "fireAtOrAboveOnNextSnapshot"@,
        ) == Some(JsonView::Bool(fires)),
    ensures
        ({
            &&& account_in(value) matches Some(account)
            &&& account.account_key == key
            &&& QuotaGuardPhase::named(name) == Some(account.phase)
            &&& account.snapshot is None
            &&& account.associated_workspace_ids.len() == workspaces.len()
            &&& forall|i: int|
                0 <= i < workspaces.len() ==> JsonView::Text(
                    #[trigger] account.associated_workspace_ids[i],
                ) == workspaces[i]
            &&& account.local_turn_registry.len() == turns.len()
            &&& forall|i: int|
                0 <= i < turns.len() ==> Some(#[trigger] account.local_turn_registry[i]) == turn_in(
                    turns[i],
                )
            &&& account.activity_entries.len() == 0
            &&& value.get("suspendedExternalEngines"@) is None
                ==> account.suspended_external_engines.len() == 0
            &&& value.get("suspendedExternalEngines"@) is Some
                ==> account.suspended_external_engines.len() == engines.len() && forall|i: int|
                0 <= i < engines.len() ==> Some(#[trigger] account.suspended_external_engines[i])
                    == engine_in(engines[i])
            &&& account.monitor_healthy == healthy
            &&& account.last_error == (if value.get("lastError"@) is Some {
                Some(error)
            } else {
                None
            })
            &&& account.updated_at == time
            &&& account.fire_at_or_above_on_next_snapshot == (value.get(
                "fireAtOrAboveOnNextSnapshot"@,
            ) is Some && fires)
        }),
{
    assert forall|i: int| 0 <= i < workspaces.len() implies crate::state_file::text_in(
        #[trigger] workspaces[i],
    ) is Some by {
        assert(workspaces[i] is Text);
    }
}

/// A state is written with its version, its counts, its account and the settings in force.
pub proof fn a_state_is_written_with_its_version(state: KeptState)
    ensures
        state_document(state) matches JsonView::Object(e) && e.len() == 5 && e[0] == (
            "schemaVersion"@,
            JsonView::Unsigned(state.schema_version as u64),
        ) && e[1] == ("lifecycleGeneration"@, JsonView::Unsigned(state.lifecycle_generation))
            && e[2] == ("nextOperationId"@, JsonView::Unsigned(state.next_operation_id)) && e[3]
            == ("account"@, optional_account_document(state.account)) && e[4] == (
            "effectiveSettings"@,
            optional_settings_document(state.effective_settings),
        ),
{
}

/// A state is read from its version, its counts, its account and the settings in force. Without a
/// count of operations they are counted from zero; the account and the settings may be absent or
/// null.
pub proof fn a_state_is_read_with_its_version(
    value: JsonView,
    version: u32,
    generation: u64,
    operation: u64,
    account: KeptAccount,
    settings: QuotaGuardSettings,
)
    requires
        value is Object,
        value.get("schemaVersion"@) == Some(JsonView::Unsigned(version as u64)),
        value.get("lifecycleGeneration"@) == Some(JsonView::Unsigned(generation)),
        value.get("nextOperationId"@) is None || value.get("nextOperationId"@) == Some(
            JsonView::Unsigned(operation),
        ),
        value.get("account"@) is None || value.get("account"@) == Some(JsonView::Null) || (
        value.get("account"@)->0 is Object && account_in(value.get("account"@)->0) == Some(
            account,
        )),
        value.get("effectiveSettings"@) is None || value.get("effectiveSettings"@) == Some(
            JsonView::Null,
        ) || (value.get("effectiveSettings"@)->0 is Object && settings_in(
            value.get("effectiveSettings"@)->0,
        ) == Some(settings)),
    ensures
        ({
            let given = |key: Seq<char>|
                value.get(key) is Some && value.get(key) != Some(JsonView::Null);
            state_in(value) == Some(
                KeptState {
                    schema_version: version,
                    lifecycle_generation: generation,
                    next_operation_id: if value.get("nextOperationId"@) is Some {
                        operation
                    } else {
                        0
                    },
                    account: if given("account"@) { Some(account) } else { None },
                    effective_settings: if given("effectiveSettings"@) {
                        Some(settings)
                    } else {
                        None
                    },
                },
            )
        }),
{
}

/// A document without its version or its generation is no state's, nor is one whose account or
/// settings cannot be read.
pub proof fn a_document_may_be_no_states(value: JsonView)
    requires
        value is Object,
        ({
            let account = value.get("account"@);
            let settings = value.get("effectiveSettings"@);
            ||| value.get("schemaVersion"@) is None
            ||| value.get("lifecycleGeneration"@) is None
            ||| account is Some && !(account->0 is Null) && account_in(account->0) is None
            ||| settings is Some && !(settings->0 is Null) && settings_in(settings->0) is None
        }),
    ensures
        state_in(value) is None,
{
}

/// A state of a known version is taken up; one of a later version is refused with its number, and a
/// document that is no state's, or a text that is no document, is refused too.
pub proof fn states_of_later_versions_are_refused(
    document: JsonView,
    state: KeptState,
    message: Seq<char>,
)
    ensures
        ({
            let read = state_in(current_document(document));
            &&& read == Some(state) && state.schema_version <= 2 ==> state_of(document) == Ok::<
                KeptState,
                StateFault,
            >(state)
            &&& read == Some(state) && state.schema_version > 2 ==> state_of(document) == Err::<
                KeptState,
                StateFault,
            >(
                StateFault::Unsupported {
                    message: "unsupported quota guard runtime schema "@ + decimal(
                        state.schema_version as nat,
                    ),
                },
            )
            &&& read is None ==> state_of(document) == Err::<KeptState, StateFault>(
                StateFault::Malformed,
            )
            &&& state_in_text(Ok(document)) == state_of(document)
            &&& state_in_text(Err(message)) == Err::<KeptState, StateFault>(
                StateFault::NoDocument { message },
            )
        }),
{
}

/// What is shown has the account, its phase, what was read and whether that is fresh, what it
/// concerns, whether all is well, the activity and which workspaces are admitted.
pub proof fn what_is_shown_has_its_members(document: JsonView, state: PublicStateView)
    requires
        shows(document, state),
    ensures
        document matches JsonView::Object(e) && e.len() == 13 && e[0] == (
            "accountKey"@,
            optional_text_document(state.account_key),
        ) && e[1] == ("accountLabel"@, optional_text_document(state.account_label)) && e[2].0
            == "phase"@ && (e[2].1 matches JsonView::Text(name) && QuotaGuardPhase::named(name)
            == Some(state.phase)) && e[3] == (
            "snapshot"@,
            optional_snapshot_document(state.snapshot),
        ) && e[4] == ("snapshotFresh"@, JsonView::Bool(state.snapshot_fresh)) && e[5].0
            == "breachedWindows"@ && (e[5].1 matches JsonView::Array(items) && items.len()
            == state.breached_windows.len() && forall|i: int|
            0 <= i < items.len() ==> #[trigger] items[i] == JsonView::Text(
                match state.breached_windows[i] {
                    QuotaWindowKind::Primary => "primary"@,
                    QuotaWindowKind::Secondary => "secondary"@,
                    QuotaWindowKind::HardLimit => "hardLimit"@,
                },
            )) && e[6].0 == "affectedTurns"@ && (e[6].1 matches JsonView::Array(items)
            && items.len() == state.affected_turns.len() && forall|i: int|
            0 <= i < items.len() ==> #[trigger] items[i] == JsonView::Object(
                seq![
                    ("workspaceId"@, JsonView::Text(state.affected_turns[i].0)),
                    ("threadId"@, JsonView::Text(state.affected_turns[i].1)),
                    ("turnId"@, JsonView::Text(state.affected_turns[i].2)),
                ],
            )) && e[7] == ("drainDeadline"@, optional_signed_document(state.drain_deadline))
            && e[8] == ("verifyAt"@, optional_signed_document(state.verify_at)) && e[9] == (
            "monitorHealthy"@,
            JsonView::Bool(state.monitor_healthy),
        ) && e[10] == ("lastError"@, optional_text_document(state.last_error)) && e[11].0
            == "activity"@ && (e[11].1 matches JsonView::Array(items) && items.len()
            == state.activity.len() && forall|i: int|
            0 <= i < items.len() ==> (#[trigger] items[i] matches JsonView::Object(a) && a.len()
                == 9 && a[0] == ("id"@, optional_text_document(state.activity[i].id)) && a[1].0
                == "kind"@ && (a[1].1 matches JsonView::Text(name) && kind_named(name) == Some(
                state.activity[i].kind,
            )) && a[2] == ("timestamp"@, signed_document(state.activity[i].timestamp)) && a[3] == (
                "operationId"@,
                optional_text_document(state.activity[i].operation_id),
            ) && a[4] == ("workspaceId"@, optional_text_document(state.activity[i].workspace_id))
                && a[5] == ("threadId"@, optional_text_document(state.activity[i].thread_id))
                && a[6] == ("turnId"@, optional_text_document(state.activity[i].turn_id)) && a[7].0
                == "attempt"@ && a[7].1 == (match state.activity[i].attempt {
                Some(n) => JsonView::Unsigned(n as u64),
                None => JsonView::Null,
            }) && a[8] == ("message"@, optional_text_document(state.activity[i].message))))
            && e[12].0 == "admissionByWorkspace"@,
{
    let admissions = choose|admissions: JsonView| #[trigger]
        shows_admissions(admissions, state.admission_by_workspace) && document
            == JsonView::Object(public_members(state, admissions));
    crate::public_state::phase_names_are_read_back(state.phase);
    let e = document->Object_0;
    let items = e[11].1->Array_0;
    assert forall|i: int| 0 <= i < items.len() implies kind_named(
        crate::state_file::spec_kind_name((#[trigger] state.activity[i]).kind),
    ) == Some(state.activity[i].kind) by {
        crate::state_file::kinds_are_read_back(state.activity[i].kind);
    }
    assert forall|i: int| 0 <= i < items.len() implies #[trigger] items[i]
        == crate::public_document::public_activity_document(state.activity[i]) by {}
}

/// Each workspace is shown with the session it is bound to, whether it is admitted and why; none
/// is shown that is not there.
pub proof fn each_workspace_is_shown_with_its_admission(
    document: JsonView,
    admissions: Map<Seq<char>, AdmissionView>,
    workspace_id: Seq<char>,
)
    requires
        shows_admissions(document, admissions),
    ensures
        !admissions.dom().contains(workspace_id) ==> document.get(workspace_id) is None,
        admissions.dom().contains(workspace_id) ==> document.get(workspace_id) == Some(
            JsonView::Object(
                seq![
                    (
                        "sessionEpoch"@,
                        optional_text_document(admissions[workspace_id].session_epoch),
                    ),
                    ("open"@, JsonView::Bool(admissions[workspace_id].open)),
                    ("reason"@, JsonView::Text(admissions[workspace_id].reason)),
                ],
            ),
        ),
{
}

/// A record is also read from an array of its members, by their places: a turn, an engine, a window
/// and a snapshot.
pub proof fn short_records_are_read_by_place(items: Seq<JsonView>, text: Seq<char>, n: u32, time: i64)
    ensures
        ({
            let value = JsonView::Array(items);
            let number = JsonView::Unsigned(n as u64);
            let texts = |i: int| items[i] == JsonView::Text(text);
            &&& items.len() == 4 && texts(0) && texts(1) && texts(2) && texts(3) ==> turn_in(value)
                == Some(
                TurnView {
                    session_epoch: text,
                    workspace_id: text,
                    thread_id: text,
                    turn_id: text,
                },
            )
            &&& items.len() != 4 ==> turn_in(value) is None && engine_in(value) is None
            &&& items.len() == 4 && items[0] == number && items[1] == number && texts(2)
                && items[3] == signed_document(time) ==> engine_in(value) == Some(
                EngineView {
                    pid: n,
                    process_start_time: n as u64,
                    image_path: text,
                    suspended_at: time,
                },
            )
            &&& items.len() == 3 && items[0] == number && n <= 255 && items[1] == number && items[2]
                == signed_document(time) ==> window_in(value) == Some(
                RateLimitWindow {
                    used_percent: n as u8,
                    window_duration_mins: Some(n as u64),
                    reset_at: Some(time),
                },
            )
            &&& items.len() != 3 ==> window_in(value) is None
            &&& items.len() == 6 && window_in(items[0]) is Some && items[0] is Object && window_in(
                items[1],
            ) is Some && items[1] is Object && items[2] == number && texts(3) && texts(4)
                && items[5] == signed_document(time) ==> snapshot_in(value) == Some(
                SnapshotView {
                    primary: window_in(items[0]),
                    secondary: window_in(items[1]),
                    credits: Some(number),
                    plan_type: Some(text),
                    rate_limit_reached_type: Some(text),
                    observed_at: time,
                },
            )
            &&& items.len() != 6 ==> snapshot_in(value) is None
        }),
{
}

/// An entry of the activity is also read from an array of its nine members, by their places.
pub proof fn activity_is_read_by_place(
    items: Seq<JsonView>,
    texts: Seq<Seq<char>>,
    name: Seq<char>,
    time: i64,
    operation: u64,
    attempt: u8,
)
    requires
        items.len() == 9,
        texts.len() == 5,
        items[0] == JsonView::Text(texts[0]),
        items[1] == JsonView::Text(name),
        kind_named(name) is Some,
        items[2] == signed_document(time),
        items[3] == JsonView::Unsigned(operation),
        items[4] == JsonView::Text(texts[1]),
        items[5] == JsonView::Text(texts[2]),
        items[6] == JsonView::Text(texts[3]),
        items[7] == JsonView::Unsigned(attempt as u64),
        items[8] == JsonView::Text(texts[4]),
    ensures
        activity_in(JsonView::Array(items)) == Some(
            ActivityView {
                id: Some(texts[0]),
                kind: kind_named(name)->0,
                timestamp: time,
                operation_id: Some(operation),
                workspace_id: Some(texts[1]),
                thread_id: Some(texts[2]),
                turn_id: Some(texts[3]),
                attempt: Some(attempt),
                message: Some(texts[4]),
            },
        ),
{
}

/// An account is also read from an array of its members, by their places; the last of the eleven
/// may be left out, and is false then.
pub proof fn an_account_is_read_by_place(
    items: Seq<JsonView>,
    key: Seq<char>,
    name: Seq<char>,
    error: Seq<char>,
    time: i64,
    healthy: bool,
    fires: bool,
)
    requires
        items.len() == 10 || items.len() == 11,
        items[0] == JsonView::Text(key),
        items[1] == JsonView::Text(name),
        QuotaGuardPhase::named(name) is Some,
        items[2] is Null,
        items[3] == JsonView::Array(seq![JsonView::Text(key)]),
        items[4] == JsonView::Array(seq![]),
        items[5] == JsonView::Array(seq![]),
        items[6] == JsonView::Array(seq![]),
        items[7] == JsonView::Bool(healthy),
        items[8] == JsonView::Text(error),
        items[9] == signed_document(time),
        items.len() == 11 ==> items[10] == JsonView::Bool(fires),
    ensures
        ({
            &&& account_in(JsonView::Array(items)) matches Some(account)
            &&& account.account_key == key
            &&& QuotaGuardPhase::named(name) == Some(account.phase)
            &&& account.snapshot is None
            &&& account.associated_workspace_ids == seq![key]
            &&& account.local_turn_registry.len() == 0
            &&& account.activity_entries.len() == 0
            &&& account.suspended_external_engines.len() == 0
            &&& account.monitor_healthy == healthy
            &&& account.last_error == Some(error)
            &&& account.updated_at == time
            &&& account.fire_at_or_above_on_next_snapshot == (items.len() == 11 && fires)
        }),
{
    let one = seq![JsonView::Text(key)];
    assert forall|i: int| 0 <= i < one.len() implies crate::state_file::text_in(#[trigger] one[i])
        == Some(key) by {}
}

/// A state is also read from an array of its members, by their places; the settings may be left
/// out.
pub proof fn a_state_is_read_by_place(items: Seq<JsonView>, version: u32, generation: u64, next: u64)
    requires
        items.len() == 4 || (items.len() == 5 && items[4] is Null),
        items[0] == JsonView::Unsigned(version as u64),
        items[1] == JsonView::Unsigned(generation),
        items[2] == JsonView::Unsigned(next),
        items[3] is Null || (items[3] is Object && account_in(items[3]) is Some),
    ensures
        state_in(JsonView::Array(items)) == Some(
            KeptState {
                schema_version: version,
                lifecycle_generation: generation,
                next_operation_id: next,
                account: if items[3] is Null { None } else { account_in(items[3]) },
                effective_settings: None,
            },
        ),
{
}

/// An array of too few or too many members is neither an account nor a state.
pub proof fn records_have_their_number_of_members(items: Seq<JsonView>)
    ensures
        items.len() < 10 || items.len() > 11 ==> account_in(JsonView::Array(items)) is None,
        items.len() < 4 || items.len() > 5 ==> state_in(JsonView::Array(items)) is None,
        items.len() != 9 ==> activity_in(JsonView::Array(items)) is None,
{
}

} // verus!
