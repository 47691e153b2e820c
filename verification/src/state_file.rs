//! The limiter's state as it is kept in a file.

use crate::json::{first_under, views, Json, JsonView};
use crate::members::{
    found, integer, lemma_list_read_back, list, member, optional, optional_integer, optional_list,
    optional_signed_document, optional_text, optional_text_document, optional_unsigned_document,
    optional_whole, read_integer, read_optional_integer, read_optional_text, read_optional_whole,
    read_text, read_truth, read_variant_name, read_whole, signed_document, text_value, truth,
    unsigned_document, variant_name, whole_within, write_array, write_optional_signed,
    write_optional_text, write_optional_unsigned, write_signed, write_unsigned,
};
use crate::model::{
    snapshot_view, AccountRuntime, AccountView, ActivityView, QuotaGuardActivityEntry,
    QuotaGuardActivityKind, QuotaGuardPhase, QuotaGuardRuntimeState, RateLimitSnapshot,
    RateLimitWindow, RuntimeView, SnapshotView, SuspendedExternalEngine, TurnKey,
};
use crate::persistence::{entry_views, lemma_object_view};
use crate::public_state::{phase_name, phase_names_are_read_back, spec_phase_name};
use crate::settings::{QuotaAction, QuotaGuardSettings};
use crate::text::same_text;
use vstd::prelude::*;
use vstd::string::*;

verus! {

/// What is kept of a turn.
pub struct TurnView {
    pub session_epoch: Seq<char>,
    pub workspace_id: Seq<char>,
    pub thread_id: Seq<char>,
    pub turn_id: Seq<char>,
}

/// What a turn holds.
pub open spec fn turn_view(turn: TurnKey) -> TurnView {
    TurnView {
        session_epoch: turn.session_epoch@,
        workspace_id: turn.workspace_id@,
        thread_id: turn.thread_id@,
        turn_id: turn.turn_id@,
    }
}

/// A turn as a document.
pub open spec fn turn_document(turn: TurnView) -> JsonView {
    JsonView::Object(
        seq![
            ("sessionEpoch"@, JsonView::Text(turn.session_epoch)),
            ("workspaceId"@, JsonView::Text(turn.workspace_id)),
            ("threadId"@, JsonView::Text(turn.thread_id)),
            ("turnId"@, JsonView::Text(turn.turn_id)),
        ],
    )
}

/// The turn in a document.
pub open spec fn turn_in(value: JsonView) -> Option<TurnView> {
    if !value.is_record(4, 4) {
        None
    } else {
        match (
            text_value(value.field("sessionEpoch"@, 0)),
            text_value(value.field("workspaceId"@, 1)),
            text_value(value.field("threadId"@, 2)),
            text_value(value.field("turnId"@, 3)),
        ) {
            (Some(session_epoch), Some(workspace_id), Some(thread_id), Some(turn_id)) => Some(
                TurnView { session_epoch, workspace_id, thread_id, turn_id },
            ),
            _ => None,
        }
    }
}

fn write_turn(turn: &TurnKey) -> (r: Json)
    ensures
        r@ == turn_document(turn_view(*turn)),
{
    let members: Vec<(String, Json)> = vec![
        member("sessionEpoch", Json::Text(turn.session_epoch.clone())),
        member("workspaceId", Json::Text(turn.workspace_id.clone())),
        member("threadId", Json::Text(turn.thread_id.clone())),
        member("turnId", Json::Text(turn.turn_id.clone())),
    ];
    proof {
        lemma_object_view(members);
        assert(entry_views(members@) =~= turn_document(turn_view(*turn))->Object_0);
    }
    Json::Object(members)
}

fn read_turn(value: &Json) -> (r: Option<TurnKey>)
    ensures
        match r {
            Some(turn) => turn_in(value@) == Some(turn_view(turn)),
            None => turn_in(value@) is None,
        },
{
    if !value.is_record(4, 4) {
        return None;
    }
    match (
        read_text(value.field("sessionEpoch", 0)),
        read_text(value.field("workspaceId", 1)),
        read_text(value.field("threadId", 2)),
        read_text(value.field("turnId", 3)),
    ) {
        (Some(session_epoch), Some(workspace_id), Some(thread_id), Some(turn_id)) => Some(
            TurnKey { session_epoch, workspace_id, thread_id, turn_id },
        ),
        _ => None,
    }
}

/// A member that no earlier one shares its name with is the one that is found.
pub(crate) proof fn lemma_member_at(entries: Seq<(Seq<char>, JsonView)>, i: int)
    requires
        0 <= i < entries.len(),
        forall|j: int| 0 <= j < i ==> (#[trigger] entries[j]).0 != entries[i].0,
    ensures
        first_under(entries, entries[i].0) == Some(entries[i].1),
    decreases i,
{
    if i > 0 {
        let rest = entries.drop_first();
        assert(entries[0].0 != entries[i].0);
        assert(rest[i - 1] == entries[i]);
        assert forall|j: int| 0 <= j < i - 1 implies (#[trigger] rest[j]).0 != rest[i - 1].0 by {
            assert(entries[j + 1].0 != entries[i].0);
        }
        lemma_member_at(rest, i - 1);
    }
}

/// A turn is read back as it was written.
pub proof fn turns_are_read_back(turn: TurnView)
    ensures
        turn_in(turn_document(turn)) == Some(turn),
{
    reveal_strlit("sessionEpoch");
    reveal_strlit("workspaceId");
    reveal_strlit("threadId");
    reveal_strlit("turnId");
    assert("sessionEpoch"@.len() == 12);
    assert("workspaceId"@.len() == 11);
    assert("threadId"@.len() == 8);
    assert("turnId"@.len() == 6);
    let entries = turn_document(turn)->Object_0;
    lemma_member_at(entries, 0);
    lemma_member_at(entries, 1);
    lemma_member_at(entries, 2);
    lemma_member_at(entries, 3);
}

/// What is kept of a suspended process.
pub struct EngineView {
    pub pid: u32,
    pub process_start_time: u64,
    pub image_path: Seq<char>,
    pub suspended_at: i64,
}

/// What a suspended process holds.
pub open spec fn engine_view(engine: SuspendedExternalEngine) -> EngineView {
    EngineView {
        pid: engine.pid,
        process_start_time: engine.process_start_time,
        image_path: engine.image_path@,
        suspended_at: engine.suspended_at,
    }
}

/// A suspended process as a document.
pub open spec fn engine_document(engine: EngineView) -> JsonView {
    JsonView::Object(
        seq![
            ("pid"@, unsigned_document(engine.pid as u64)),
            ("processStartTime"@, unsigned_document(engine.process_start_time)),
            ("imagePath"@, JsonView::Text(engine.image_path)),
            ("suspendedAt"@, signed_document(engine.suspended_at)),
        ],
    )
}

/// The suspended process in a document.
pub open spec fn engine_in(value: JsonView) -> Option<EngineView> {
    if !value.is_record(4, 4) {
        None
    } else {
        match (
            whole_within(value.field("pid"@, 0), u32::MAX as u64),
            whole_within(value.field("processStartTime"@, 1), u64::MAX),
            text_value(value.field("imagePath"@, 2)),
            integer(value.field("suspendedAt"@, 3)),
        ) {
            (Some(pid), Some(process_start_time), Some(image_path), Some(suspended_at)) => Some(
                EngineView { pid: pid as u32, process_start_time, image_path, suspended_at },
            ),
            _ => None,
        }
    }
}

fn write_engine(engine: &SuspendedExternalEngine) -> (r: Json)
    ensures
        r@ == engine_document(engine_view(*engine)),
{
    let members: Vec<(String, Json)> = vec![
        member("pid", write_unsigned(engine.pid as u64)),
        member("processStartTime", write_unsigned(engine.process_start_time)),
        member("imagePath", Json::Text(engine.image_path.clone())),
        member("suspendedAt", write_signed(engine.suspended_at)),
    ];
    proof {
        lemma_object_view(members);
        assert(entry_views(members@) =~= engine_document(engine_view(*engine))->Object_0);
    }
    Json::Object(members)
}

fn read_engine(value: &Json) -> (r: Option<SuspendedExternalEngine>)
    ensures
        match r {
            Some(engine) => engine_in(value@) == Some(engine_view(engine)),
            None => engine_in(value@) is None,
        },
{
    if !value.is_record(4, 4) {
        return None;
    }
    match (
        read_whole(value.field("pid", 0), u32::MAX as u64),
        read_whole(value.field("processStartTime", 1), u64::MAX),
        read_text(value.field("imagePath", 2)),
        read_integer(value.field("suspendedAt", 3)),
    ) {
        (Some(pid), Some(process_start_time), Some(image_path), Some(suspended_at)) => Some(
            SuspendedExternalEngine {
                pid: pid as u32,
                process_start_time,
                image_path,
                suspended_at,
            },
        ),
        _ => None,
    }
}

/// A suspended process is read back as it was written.
pub proof fn engines_are_read_back(engine: EngineView)
    ensures
        engine_in(engine_document(engine)) == Some(engine),
{
    reveal_strlit("pid");
    reveal_strlit("processStartTime");
    reveal_strlit("imagePath");
    reveal_strlit("suspendedAt");
    assert("pid"@.len() == 3);
    assert("processStartTime"@.len() == 16);
    assert("imagePath"@.len() == 9);
    assert("suspendedAt"@.len() == 11);
    let entries = engine_document(engine)->Object_0;
    lemma_member_at(entries, 0);
    lemma_member_at(entries, 1);
    lemma_member_at(entries, 2);
    lemma_member_at(entries, 3);
}

/// A window as a document.
pub open spec fn window_document(window: RateLimitWindow) -> JsonView {
    JsonView::Object(
        seq![
            ("usedPercent"@, unsigned_document(window.used_percent as u64)),
            ("windowDurationMins"@, optional_unsigned_document(window.window_duration_mins)),
            ("resetsAt"@, optional_signed_document(window.reset_at)),
        ],
    )
}

/// A window or null as a document.
pub open spec fn optional_window_document(window: Option<RateLimitWindow>) -> JsonView {
    match window {
        Some(window) => window_document(window),
        None => JsonView::Null,
    }
}

/// The window in a document.
pub open spec fn window_in(value: JsonView) -> Option<RateLimitWindow> {
    if !value.is_record(3, 3) {
        None
    } else {
        match (
            whole_within(value.field("usedPercent"@, 0), u8::MAX as u64),
            optional_whole(value.field("windowDurationMins"@, 1), u64::MAX),
            optional_integer(value.field("resetsAt"@, 2)),
        ) {
            (Some(used_percent), Some(window_duration_mins), Some(reset_at)) => Some(
                RateLimitWindow { used_percent: used_percent as u8, window_duration_mins, reset_at },
            ),
            _ => None,
        }
    }
}

/// The window in a member that may be missing or null.
pub open spec fn optional_window_in(value: Option<JsonView>) -> Option<Option<RateLimitWindow>> {
    match optional(value) {
        None => Some(None),
        Some(document) => match window_in(document) {
            Some(window) => Some(Some(window)),
            None => None,
        },
    }
}

fn write_window(window: &Option<RateLimitWindow>) -> (r: Json)
    ensures
        r@ == optional_window_document(*window),
{
    let window = match window {
        Some(window) => window,
        None => {
            return Json::Null;
        },
    };
    let members: Vec<(String, Json)> = vec![
        member("usedPercent", write_unsigned(window.used_percent as u64)),
        member("windowDurationMins", write_optional_unsigned(window.window_duration_mins)),
        member("resetsAt", write_optional_signed(window.reset_at)),
    ];
    proof {
        lemma_object_view(members);
        assert(entry_views(members@) =~= window_document(*window)->Object_0);
    }
    Json::Object(members)
}

fn read_window(value: Option<&Json>) -> (r: Option<Option<RateLimitWindow>>)
    ensures
        r == optional_window_in(found(value)),
{
    let document = match value {
        None => {
            return Some(None);
        },
        Some(Json::Null) => {
            return Some(None);
        },
        Some(document) => document,
    };
    if !document.is_record(3, 3) {
        return None;
    }
    match (
        read_whole(document.field("usedPercent", 0), u8::MAX as u64),
        read_optional_whole(document.field("windowDurationMins", 1), u64::MAX),
        read_optional_integer(document.field("resetsAt", 2)),
    ) {
        (Some(used_percent), Some(window_duration_mins), Some(reset_at)) => Some(
            Some(
                RateLimitWindow {
                    used_percent: used_percent as u8,
                    window_duration_mins,
                    reset_at,
                },
            ),
        ),
        _ => None,
    }
}

/// A window is read back as it was written.
pub proof fn windows_are_read_back(window: Option<RateLimitWindow>)
    ensures
        optional_window_in(Some(optional_window_document(window))) == Some(window),
{
    if let Some(window) = window {
        reveal_strlit("usedPercent");
        reveal_strlit("windowDurationMins");
        reveal_strlit("resetsAt");
        assert("usedPercent"@.len() == 11);
        assert("windowDurationMins"@.len() == 18);
        assert("resetsAt"@.len() == 8);
        let entries = window_document(window)->Object_0;
        lemma_member_at(entries, 0);
        lemma_member_at(entries, 1);
        lemma_member_at(entries, 2);
    }
}

/// A document or null.
pub open spec fn optional_document(document: Option<JsonView>) -> JsonView {
    match document {
        Some(document) => document,
        None => JsonView::Null,
    }
}

/// A snapshot as a document.
pub open spec fn snapshot_document(snapshot: SnapshotView) -> JsonView {
    JsonView::Object(
        seq![
            ("primary"@, optional_window_document(snapshot.primary)),
            ("secondary"@, optional_window_document(snapshot.secondary)),
            ("credits"@, optional_document(snapshot.credits)),
            ("planType"@, optional_text_document(snapshot.plan_type)),
            ("rateLimitReachedType"@, optional_text_document(snapshot.rate_limit_reached_type)),
            ("observedAt"@, signed_document(snapshot.observed_at)),
        ],
    )
}

/// A snapshot or null as a document.
pub open spec fn optional_snapshot_document(snapshot: Option<SnapshotView>) -> JsonView {
    match snapshot {
        Some(snapshot) => snapshot_document(snapshot),
        None => JsonView::Null,
    }
}

/// The snapshot in a document.
pub open spec fn snapshot_in(value: JsonView) -> Option<SnapshotView> {
    if !value.is_record(6, 6) {
        None
    } else {
        match (
            optional_window_in(value.field("primary"@, 0)),
            optional_window_in(value.field("secondary"@, 1)),
            optional_text(value.field("planType"@, 3)),
            optional_text(value.field("rateLimitReachedType"@, 4)),
            integer(value.field("observedAt"@, 5)),
        ) {
            (
                Some(primary),
                Some(secondary),
                Some(plan_type),
                Some(rate_limit_reached_type),
                Some(observed_at),
            ) => Some(
                SnapshotView {
                    primary,
                    secondary,
                    credits: optional(value.field("credits"@, 2)),
                    plan_type,
                    rate_limit_reached_type,
                    observed_at,
                },
            ),
            _ => None,
        }
    }
}

/// The snapshot in a member that may be missing or null.
pub open spec fn optional_snapshot_in(value: Option<JsonView>) -> Option<Option<SnapshotView>> {
    match optional(value) {
        None => Some(None),
        Some(document) => match snapshot_in(document) {
            Some(snapshot) => Some(Some(snapshot)),
            None => None,
        },
    }
}

/// A snapshot or null as a document.
pub fn write_snapshot(snapshot: &Option<RateLimitSnapshot>) -> (r: Json)
    ensures
        r@ == optional_snapshot_document(snapshot_view(*snapshot)),
{
    let snapshot = match snapshot {
        Some(snapshot) => snapshot,
        None => {
            return Json::Null;
        },
    };
    let credits = match &snapshot.credits {
        Some(credits) => credits.clone(),
        None => Json::Null,
    };
    let members: Vec<(String, Json)> = vec![
        member("primary", write_window(&snapshot.primary)),
        member("secondary", write_window(&snapshot.secondary)),
        member("credits", credits),
        member("planType", write_optional_text(&snapshot.plan_type)),
        member("rateLimitReachedType", write_optional_text(&snapshot.rate_limit_reached_type)),
        member("observedAt", write_signed(snapshot.observed_at)),
    ];
    proof {
        lemma_object_view(members);
        assert(entry_views(members@) =~= snapshot_document(snapshot@)->Object_0);
    }
    Json::Object(members)
}

fn read_snapshot(value: Option<&Json>) -> (r: Option<Option<RateLimitSnapshot>>)
    ensures
        match r {
            Some(snapshot) => optional_snapshot_in(found(value)) == Some(snapshot_view(snapshot)),
            None => optional_snapshot_in(found(value)) is None,
        },
{
    let document = match value {
        None => {
            return Some(None);
        },
        Some(Json::Null) => {
            return Some(None);
        },
        Some(document) => document,
    };
    if !document.is_record(6, 6) {
        return None;
    }
    let credits = match document.field("credits", 2) {
        None => None,
        Some(Json::Null) => None,
        Some(credits) => Some(credits.clone()),
    };
    match (
        read_window(document.field("primary", 0)),
        read_window(document.field("secondary", 1)),
        read_optional_text(document.field("planType", 3)),
        read_optional_text(document.field("rateLimitReachedType", 4)),
        read_integer(document.field("observedAt", 5)),
    ) {
        (
            Some(primary),
            Some(secondary),
            Some(plan_type),
            Some(rate_limit_reached_type),
            Some(observed_at),
        ) => Some(
            Some(
                RateLimitSnapshot {
                    primary,
                    secondary,
                    credits,
                    plan_type,
                    rate_limit_reached_type,
                    observed_at,
                },
            ),
        ),
        _ => None,
    }
}

/// The snapshot without credits that are null.
pub open spec fn snapshot_without_null_credits(snapshot: Option<SnapshotView>) -> Option<
    SnapshotView,
> {
    match snapshot {
        Some(snapshot) => Some(SnapshotView { credits: optional(snapshot.credits), ..snapshot }),
        None => None,
    }
}

/// A snapshot is read back as it was written. Credits that are null are read as none.
pub proof fn snapshots_are_read_back(snapshot: Option<SnapshotView>)
    ensures
        optional_snapshot_in(Some(optional_snapshot_document(snapshot))) == Some(
            snapshot_without_null_credits(snapshot),
        ),
{
    if let Some(snapshot) = snapshot {
        reveal_strlit("primary");
        reveal_strlit("secondary");
        reveal_strlit("credits");
        reveal_strlit("planType");
        reveal_strlit("rateLimitReachedType");
        reveal_strlit("observedAt");
        assert("primary"@.len() == 7 && "primary"@[0] == 'p');
        assert("secondary"@.len() == 9);
        assert("credits"@.len() == 7 && "credits"@[0] == 'c');
        assert("planType"@.len() == 8);
        assert("rateLimitReachedType"@.len() == 20);
        assert("observedAt"@.len() == 10);
        let entries = snapshot_document(snapshot)->Object_0;
        lemma_member_at(entries, 0);
        lemma_member_at(entries, 1);
        lemma_member_at(entries, 2);
        lemma_member_at(entries, 3);
        lemma_member_at(entries, 4);
        lemma_member_at(entries, 5);
        windows_are_read_back(snapshot.primary);
        windows_are_read_back(snapshot.secondary);
    }
}

/// The name of a kind of activity.
pub open spec fn spec_kind_name(kind: QuotaGuardActivityKind) -> Seq<char> {
    match kind {
        QuotaGuardActivityKind::StateChanged => "stateChanged"@,
        QuotaGuardActivityKind::NotificationSent => "notificationSent"@,
        QuotaGuardActivityKind::NotificationFailed => "notificationFailed"@,
        QuotaGuardActivityKind::InterruptRequested => "interruptRequested"@,
        QuotaGuardActivityKind::InterruptAcknowledged => "interruptAcknowledged"@,
        QuotaGuardActivityKind::InterruptCompleted => "interruptCompleted"@,
        QuotaGuardActivityKind::MonitorError => "monitorError"@,
        QuotaGuardActivityKind::ExternalEngineSuspended => "externalEngineSuspended"@,
        QuotaGuardActivityKind::ExternalEngineResumed => "externalEngineResumed"@,
        QuotaGuardActivityKind::ExternalEngineSkipped => "externalEngineSkipped"@,
    }
}

/// The kind of activity of this name.
pub open spec fn kind_named(name: Seq<char>) -> Option<QuotaGuardActivityKind> {
    if name == "stateChanged"@ {
        Some(QuotaGuardActivityKind::StateChanged)
    } else if name == "notificationSent"@ {
        Some(QuotaGuardActivityKind::NotificationSent)
    } else if name == "notificationFailed"@ {
        Some(QuotaGuardActivityKind::NotificationFailed)
    } else if name == "interruptRequested"@ {
        Some(QuotaGuardActivityKind::InterruptRequested)
    } else if name == "interruptAcknowledged"@ {
        Some(QuotaGuardActivityKind::InterruptAcknowledged)
    } else if name == "interruptCompleted"@ {
        Some(QuotaGuardActivityKind::InterruptCompleted)
    } else if name == "monitorError"@ {
        Some(QuotaGuardActivityKind::MonitorError)
    } else if name == "externalEngineSuspended"@ {
        Some(QuotaGuardActivityKind::ExternalEngineSuspended)
    } else if name == "externalEngineResumed"@ {
        Some(QuotaGuardActivityKind::ExternalEngineResumed)
    } else if name == "externalEngineSkipped"@ {
        Some(QuotaGuardActivityKind::ExternalEngineSkipped)
    } else {
        None
    }
}

/// The name of a kind of activity.
pub fn kind_name(kind: QuotaGuardActivityKind) -> (r: &'static str)
    ensures
        r@ == spec_kind_name(kind),
{
    match kind {
        QuotaGuardActivityKind::StateChanged => "stateChanged",
        QuotaGuardActivityKind::NotificationSent => "notificationSent",
        QuotaGuardActivityKind::NotificationFailed => "notificationFailed",
        QuotaGuardActivityKind::InterruptRequested => "interruptRequested",
        QuotaGuardActivityKind::InterruptAcknowledged => "interruptAcknowledged",
        QuotaGuardActivityKind::InterruptCompleted => "interruptCompleted",
        QuotaGuardActivityKind::MonitorError => "monitorError",
        QuotaGuardActivityKind::ExternalEngineSuspended => "externalEngineSuspended",
        QuotaGuardActivityKind::ExternalEngineResumed => "externalEngineResumed",
        QuotaGuardActivityKind::ExternalEngineSkipped => "externalEngineSkipped",
    }
}

/// The kind of activity of this name.
pub fn kind_from_name(name: &str) -> (r: Option<QuotaGuardActivityKind>)
    ensures
        r == kind_named(name@),
{
    if same_text(name, "stateChanged") {
        Some(QuotaGuardActivityKind::StateChanged)
    } else if same_text(name, "notificationSent") {
        Some(QuotaGuardActivityKind::NotificationSent)
    } else if same_text(name, "notificationFailed") {
        Some(QuotaGuardActivityKind::NotificationFailed)
    } else if same_text(name, "interruptRequested") {
        Some(QuotaGuardActivityKind::InterruptRequested)
    } else if same_text(name, "interruptAcknowledged") {
        Some(QuotaGuardActivityKind::InterruptAcknowledged)
    } else if same_text(name, "interruptCompleted") {
        Some(QuotaGuardActivityKind::InterruptCompleted)
    } else if same_text(name, "monitorError") {
        Some(QuotaGuardActivityKind::MonitorError)
    } else if same_text(name, "externalEngineSuspended") {
        Some(QuotaGuardActivityKind::ExternalEngineSuspended)
    } else if same_text(name, "externalEngineResumed") {
        Some(QuotaGuardActivityKind::ExternalEngineResumed)
    } else if same_text(name, "externalEngineSkipped") {
        Some(QuotaGuardActivityKind::ExternalEngineSkipped)
    } else {
        None
    }
}

/// A kind of activity is read back as it was written.
pub proof fn kinds_are_read_back(kind: QuotaGuardActivityKind)
    ensures
        kind_named(spec_kind_name(kind)) == Some(kind),
{
    reveal_strlit("stateChanged");
    reveal_strlit("notificationSent");
    reveal_strlit("notificationFailed");
    reveal_strlit("interruptRequested");
    reveal_strlit("interruptAcknowledged");
    reveal_strlit("interruptCompleted");
    reveal_strlit("monitorError");
    reveal_strlit("externalEngineSuspended");
    reveal_strlit("externalEngineResumed");
    reveal_strlit("externalEngineSkipped");
    assert("stateChanged"@.len() == 12 && "stateChanged"@[0] == 's');
    assert("notificationSent"@.len() == 16);
    assert("notificationFailed"@.len() == 18 && "notificationFailed"@[0] == 'n');
    assert("interruptRequested"@.len() == 18 && "interruptRequested"@[0] == 'i' && "interruptRequested"@[9] == 'R');
    assert("interruptAcknowledged"@.len() == 21 && "interruptAcknowledged"@[0] == 'i');
    assert("interruptCompleted"@.len() == 18 && "interruptCompleted"@[0] == 'i' && "interruptCompleted"@[9] == 'C');
    assert("monitorError"@.len() == 12 && "monitorError"@[0] == 'm');
    assert("externalEngineSuspended"@.len() == 23);
    assert("externalEngineResumed"@.len() == 21 && "externalEngineResumed"@[0] == 'e' && "externalEngineResumed"@[14] == 'R' && "externalEngineResumed"@[15] == 'e');
    assert("externalEngineSkipped"@.len() == 21 && "externalEngineSkipped"@[0] == 'e' && "externalEngineSkipped"@[14] == 'S' && "externalEngineSkipped"@[15] == 'k');
}

/// A line of the activity log as a document.
pub open spec fn activity_document(entry: ActivityView) -> JsonView {
    JsonView::Object(
        seq![
            ("id"@, optional_text_document(entry.id)),
            ("kind"@, JsonView::Text(spec_kind_name(entry.kind))),
            ("timestamp"@, signed_document(entry.timestamp)),
            ("operationId"@, optional_unsigned_document(entry.operation_id)),
            ("workspaceId"@, optional_text_document(entry.workspace_id)),
            ("threadId"@, optional_text_document(entry.thread_id)),
            ("turnId"@, optional_text_document(entry.turn_id)),
            ("attempt"@, optional_unsigned_document(attempt_number(entry.attempt))),
            ("message"@, optional_text_document(entry.message)),
        ],
    )
}

/// An attempt as a wider number.
pub open spec fn attempt_number(attempt: Option<u8>) -> Option<u64> {
    match attempt {
        Some(n) => Some(n as u64),
        None => None,
    }
}

/// The kind of activity in a member.
pub open spec fn kind_in(value: Option<JsonView>) -> Option<QuotaGuardActivityKind> {
    match variant_name(value) {
        Some(name) => kind_named(name),
        None => None,
    }
}

/// The line of the activity log in a document.
pub open spec fn activity_in(value: JsonView) -> Option<ActivityView> {
    if !value.is_record(9, 9) {
        None
    } else {
        match (
            optional_text(value.field("id"@, 0)),
            kind_in(value.field("kind"@, 1)),
            integer(value.field("timestamp"@, 2)),
            optional_whole(value.field("operationId"@, 3), u64::MAX),
            optional_text(value.field("workspaceId"@, 4)),
            optional_text(value.field("threadId"@, 5)),
            optional_text(value.field("turnId"@, 6)),
            optional_whole(value.field("attempt"@, 7), u8::MAX as u64),
            optional_text(value.field("message"@, 8)),
        ) {
            (
                Some(id),
                Some(kind),
                Some(timestamp),
                Some(operation_id),
                Some(workspace_id),
                Some(thread_id),
                Some(turn_id),
                Some(attempt),
                Some(message),
            ) => Some(
                ActivityView {
                    id,
                    kind,
                    timestamp,
                    operation_id,
                    workspace_id,
                    thread_id,
                    turn_id,
                    attempt: match attempt {
                        Some(n) => Some(n as u8),
                        None => None,
                    },
                    message,
                },
            ),
            _ => None,
        }
    }
}

fn write_activity(entry: &QuotaGuardActivityEntry) -> (r: Json)
    ensures
        r@ == activity_document(entry@),
{
    let attempt: Option<u64> = match entry.attempt {
        Some(n) => Some(n as u64),
        None => None,
    };
    let members: Vec<(String, Json)> = vec![
        member("id", write_optional_text(&entry.id)),
        member("kind", Json::Text(kind_name(entry.kind).to_owned())),
        member("timestamp", write_signed(entry.timestamp)),
        member("operationId", write_optional_unsigned(entry.operation_id)),
        member("workspaceId", write_optional_text(&entry.workspace_id)),
        member("threadId", write_optional_text(&entry.thread_id)),
        member("turnId", write_optional_text(&entry.turn_id)),
        member("attempt", write_optional_unsigned(attempt)),
        member("message", write_optional_text(&entry.message)),
    ];
    proof {
        lemma_object_view(members);
        assert(entry_views(members@) =~= activity_document(entry@)->Object_0);
    }
    Json::Object(members)
}

fn read_activity(value: &Json) -> (r: Option<QuotaGuardActivityEntry>)
    ensures
        match r {
            Some(entry) => activity_in(value@) == Some(entry@),
            None => activity_in(value@) is None,
        },
{
    if !value.is_record(9, 9) {
        return None;
    }
    let kind = match read_variant_name(value.field("kind", 1)) {
        Some(name) => kind_from_name(name.as_str()),
        None => None,
    };
    match (
        read_optional_text(value.field("id", 0)),
        kind,
        read_integer(value.field("timestamp", 2)),
        read_optional_whole(value.field("operationId", 3), u64::MAX),
        read_optional_text(value.field("workspaceId", 4)),
        read_optional_text(value.field("threadId", 5)),
        read_optional_text(value.field("turnId", 6)),
        read_optional_whole(value.field("attempt", 7), u8::MAX as u64),
        read_optional_text(value.field("message", 8)),
    ) {
        (
            Some(id),
            Some(kind),
            Some(timestamp),
            Some(operation_id),
            Some(workspace_id),
            Some(thread_id),
            Some(turn_id),
            Some(attempt),
            Some(message),
        ) => Some(
            QuotaGuardActivityEntry {
                id,
                kind,
                timestamp,
                operation_id,
                workspace_id,
                thread_id,
                turn_id,
                attempt: match attempt {
                    Some(n) => Some(n as u8),
                    None => None,
                },
                message,
            },
        ),
        _ => None,
    }
}

/// A line of the activity log is read back as it was written.
pub proof fn activity_is_read_back(entry: ActivityView)
    ensures
        activity_in(activity_document(entry)) == Some(entry),
{
    reveal_strlit("id");
    reveal_strlit("kind");
    reveal_strlit("timestamp");
    reveal_strlit("operationId");
    reveal_strlit("workspaceId");
    reveal_strlit("threadId");
    reveal_strlit("turnId");
    reveal_strlit("attempt");
    reveal_strlit("message");
    assert("id"@.len() == 2);
    assert("kind"@.len() == 4);
    assert("timestamp"@.len() == 9);
    assert("operationId"@.len() == 11 && "operationId"@[0] == 'o');
    assert("workspaceId"@.len() == 11 && "workspaceId"@[0] == 'w');
    assert("threadId"@.len() == 8);
    assert("turnId"@.len() == 6);
    assert("attempt"@.len() == 7 && "attempt"@[0] == 'a');
    assert("message"@.len() == 7 && "message"@[0] == 'm');
    let entries = activity_document(entry)->Object_0;
    lemma_member_at(entries, 0);
    lemma_member_at(entries, 1);
    lemma_member_at(entries, 2);
    lemma_member_at(entries, 3);
    lemma_member_at(entries, 4);
    lemma_member_at(entries, 5);
    lemma_member_at(entries, 6);
    lemma_member_at(entries, 7);
    lemma_member_at(entries, 8);
    kinds_are_read_back(entry.kind);
}

/// The name of a response.
pub open spec fn spec_action_name(action: QuotaAction) -> Seq<char> {
    match action {
        QuotaAction::NotifyOnly => "notifyOnly"@,
        QuotaAction::Interrupt => "interrupt"@,
        QuotaAction::Block => "block"@,
    }
}

/// The response of this name.
pub open spec fn action_named(name: Seq<char>) -> Option<QuotaAction> {
    if name == "notifyOnly"@ {
        Some(QuotaAction::NotifyOnly)
    } else if name == "interrupt"@ {
        Some(QuotaAction::Interrupt)
    } else if name == "block"@ {
        Some(QuotaAction::Block)
    } else {
        None
    }
}

/// The name of a response.
pub fn action_name(action: QuotaAction) -> (r: &'static str)
    ensures
        r@ == spec_action_name(action),
{
    match action {
        QuotaAction::NotifyOnly => "notifyOnly",
        QuotaAction::Interrupt => "interrupt",
        QuotaAction::Block => "block",
    }
}

/// The response of this name.
pub fn action_from_name(name: &str) -> (r: Option<QuotaAction>)
    ensures
        r == action_named(name@),
{
    if same_text(name, "notifyOnly") {
        Some(QuotaAction::NotifyOnly)
    } else if same_text(name, "interrupt") {
        Some(QuotaAction::Interrupt)
    } else if same_text(name, "block") {
        Some(QuotaAction::Block)
    } else {
        None
    }
}

/// The settings as a document.
pub open spec fn settings_document(settings: QuotaGuardSettings) -> JsonView {
    JsonView::Object(
        seq![
            ("enabled"@, JsonView::Bool(settings.enabled)),
            ("armed"@, JsonView::Bool(settings.armed)),
            ("action"@, JsonView::Text(spec_action_name(settings.action))),
            (
                "primaryThresholdPercent"@,
                unsigned_document(settings.primary_threshold_percent as u64),
            ),
            (
                "secondaryThresholdPercent"@,
                unsigned_document(settings.secondary_threshold_percent as u64),
            ),
            (
                "rearmAfterResetPercentLeft"@,
                optional_unsigned_document(attempt_number(settings.rearm_after_reset_percent_left)),
            ),
            ("drainTimeoutMinutes"@, unsigned_document(settings.drain_timeout_minutes as u64)),
            ("resetGraceMinutes"@, unsigned_document(settings.reset_grace_minutes as u64)),
            ("notifyWhenAvailable"@, JsonView::Bool(settings.notify_when_available)),
        ],
    )
}

/// The settings or null as a document.
pub open spec fn optional_settings_document(settings: Option<QuotaGuardSettings>) -> JsonView {
    match settings {
        Some(settings) => settings_document(settings),
        None => JsonView::Null,
    }
}

/// The response in a member.
pub open spec fn action_in(value: Option<JsonView>) -> Option<QuotaAction> {
    match text_value(value) {
        Some(name) => action_named(name),
        None => None,
    }
}

/// The settings in a document.
pub open spec fn settings_in(value: JsonView) -> Option<QuotaGuardSettings> {
    match (
        truth(value.get("enabled"@)),
        truth(value.get("armed"@)),
        action_in(value.get("action"@)),
        whole_within(value.get("primaryThresholdPercent"@), u8::MAX as u64),
        whole_within(value.get("secondaryThresholdPercent"@), u8::MAX as u64),
        optional_whole(value.get("rearmAfterResetPercentLeft"@), u8::MAX as u64),
        whole_within(value.get("drainTimeoutMinutes"@), u16::MAX as u64),
        whole_within(value.get("resetGraceMinutes"@), u16::MAX as u64),
        truth(value.get("notifyWhenAvailable"@)),
    ) {
        (
            Some(enabled),
            Some(armed),
            Some(action),
            Some(primary),
            Some(secondary),
            Some(rearm),
            Some(drain),
            Some(grace),
            Some(notify_when_available),
        ) => Some(
            QuotaGuardSettings {
                enabled,
                armed,
                action,
                primary_threshold_percent: primary as u8,
                secondary_threshold_percent: secondary as u8,
                rearm_after_reset_percent_left: match rearm {
                    Some(n) => Some(n as u8),
                    None => None,
                },
                drain_timeout_minutes: drain as u16,
                reset_grace_minutes: grace as u16,
                notify_when_available,
            },
        ),
        _ => None,
    }
}

/// The settings in a member that may be missing or null.
pub open spec fn optional_settings_in(value: Option<JsonView>) -> Option<Option<QuotaGuardSettings>> {
    match optional(value) {
        None => Some(None),
        Some(document) => match settings_in(document) {
            Some(settings) => Some(Some(settings)),
            None => None,
        },
    }
}

/// The settings as a document.
pub fn write_settings(settings: &QuotaGuardSettings) -> (r: Json)
    ensures
        r@ == settings_document(*settings),
{
    let rearm: Option<u64> = match settings.rearm_after_reset_percent_left {
        Some(n) => Some(n as u64),
        None => None,
    };
    let members: Vec<(String, Json)> = vec![
        member("enabled", Json::Bool(settings.enabled)),
        member("armed", Json::Bool(settings.armed)),
        member("action", Json::Text(action_name(settings.action).to_owned())),
        member(
            "primaryThresholdPercent",
            write_unsigned(settings.primary_threshold_percent as u64),
        ),
        member(
            "secondaryThresholdPercent",
            write_unsigned(settings.secondary_threshold_percent as u64),
        ),
        member("rearmAfterResetPercentLeft", write_optional_unsigned(rearm)),
        member("drainTimeoutMinutes", write_unsigned(settings.drain_timeout_minutes as u64)),
        member("resetGraceMinutes", write_unsigned(settings.reset_grace_minutes as u64)),
        member("notifyWhenAvailable", Json::Bool(settings.notify_when_available)),
    ];
    proof {
        lemma_object_view(members);
        assert(entry_views(members@) =~= settings_document(*settings)->Object_0);
    }
    Json::Object(members)
}

/// Reads the settings from a document.
pub fn read_settings(document: &Json) -> (r: Option<QuotaGuardSettings>)
    ensures
        r == settings_in(document@),
{
    let action = match read_text(document.get("action")) {
        Some(name) => action_from_name(name.as_str()),
        None => None,
    };
    match (
        read_truth(document.get("enabled")),
        read_truth(document.get("armed")),
        action,
        read_whole(document.get("primaryThresholdPercent"), u8::MAX as u64),
        read_whole(document.get("secondaryThresholdPercent"), u8::MAX as u64),
        read_optional_whole(document.get("rearmAfterResetPercentLeft"), u8::MAX as u64),
        read_whole(document.get("drainTimeoutMinutes"), u16::MAX as u64),
        read_whole(document.get("resetGraceMinutes"), u16::MAX as u64),
        read_truth(document.get("notifyWhenAvailable")),
    ) {
        (
            Some(enabled),
            Some(armed),
            Some(action),
            Some(primary),
            Some(secondary),
            Some(rearm),
            Some(drain),
            Some(grace),
            Some(notify_when_available),
        ) => Some(
            QuotaGuardSettings {
                enabled,
                armed,
                action,
                primary_threshold_percent: primary as u8,
                secondary_threshold_percent: secondary as u8,
                rearm_after_reset_percent_left: match rearm {
                    Some(n) => Some(n as u8),
                    None => None,
                },
                drain_timeout_minutes: drain as u16,
                reset_grace_minutes: grace as u16,
                notify_when_available,
            },
        ),
        _ => None,
    }
}

/// The settings are read back as they were written.
pub proof fn settings_are_read_back(settings: QuotaGuardSettings)
    ensures
        settings_in(settings_document(settings)) == Some(settings),
{
    reveal_strlit("enabled");
    reveal_strlit("armed");
    reveal_strlit("action");
    reveal_strlit("primaryThresholdPercent");
    reveal_strlit("secondaryThresholdPercent");
    reveal_strlit("rearmAfterResetPercentLeft");
    reveal_strlit("drainTimeoutMinutes");
    reveal_strlit("resetGraceMinutes");
    reveal_strlit("notifyWhenAvailable");
    reveal_strlit("notifyOnly");
    reveal_strlit("interrupt");
    reveal_strlit("block");
    assert("enabled"@.len() == 7);
    assert("armed"@.len() == 5);
    assert("action"@.len() == 6);
    assert("primaryThresholdPercent"@.len() == 23);
    assert("secondaryThresholdPercent"@.len() == 25);
    assert("rearmAfterResetPercentLeft"@.len() == 26);
    assert("drainTimeoutMinutes"@.len() == 19 && "drainTimeoutMinutes"@[0] == 'd');
    assert("resetGraceMinutes"@.len() == 17);
    assert("notifyWhenAvailable"@.len() == 19 && "notifyWhenAvailable"@[0] == 'n');
    assert("notifyOnly"@.len() == 10);
    assert("interrupt"@.len() == 9);
    assert("block"@.len() == 5);
    let entries = settings_document(settings)->Object_0;
    lemma_member_at(entries, 0);
    lemma_member_at(entries, 1);
    lemma_member_at(entries, 2);
    lemma_member_at(entries, 3);
    lemma_member_at(entries, 4);
    lemma_member_at(entries, 5);
    lemma_member_at(entries, 6);
    lemma_member_at(entries, 7);
    lemma_member_at(entries, 8);
}

/// A text as a document.
pub open spec fn text_document(s: Seq<char>) -> JsonView {
    JsonView::Text(s)
}

/// The text in a document.
pub open spec fn text_in(value: JsonView) -> Option<Seq<char>> {
    value.text()
}

fn write_text(s: &String) -> (r: Json)
    ensures
        r@ == text_document(s@),
{
    Json::Text(s.clone())
}

fn read_text_document(value: &Json) -> (r: Option<String>)
    ensures
        match r {
            Some(s) => text_in(value@) == Some(s@),
            None => text_in(value@) is None,
        },
{
    read_text(Some(value))
}

fn write_texts(items: &Vec<String>) -> (r: Json)
    ensures
        r@ == JsonView::Array(items@.map_values(|item: String| text_document(item@))),
{
    let mut out: Vec<Json> = Vec::new();
    let mut i: usize = 0;
    while i < items.len()
        invariant
            i <= items@.len(),
            out@.len() == i,
            forall|k: int|
                0 <= k < i ==> (#[trigger] out@[k])@ == text_document(items@[k]@),
        decreases items@.len() - i,
    {
        out.push(write_text(&items[i]));
        i += 1;
    }
    assert(views(out@) =~= items@.map_values(|item: String| text_document(item@)));
    write_array(out)
}

fn read_texts(value: &Json) -> (r: Option<Vec<String>>)
    ensures
        match r {
            Some(items) => list(Some(value@), |item: JsonView| text_in(item)) == Some(
                items@.map_values(|item: String| item@),
            ),
            None => list(Some(value@), |item: JsonView| text_in(item)) is None,
        },
{
    let items = match value.as_array() {
        Some(items) => items,
        None => {
            return None;
        },
    };
    let ghost read = |item: JsonView| text_in(item);
    let mut out: Vec<String> = Vec::new();
    let mut i: usize = 0;
    while i < items.len()
        invariant
            i <= items@.len(),
            read == (|item: JsonView| text_in(item)),
            value@ == JsonView::Array(views(items@)),
            out@.len() == i,
            forall|k: int|
                0 <= k < i ==> text_in(items@[k]@) == Some(#[trigger] out@[k]@),
        decreases items@.len() - i,
    {
        match read_text_document(&items[i]) {
            Some(item) => {
                out.push(item);
            },
            None => {
                assert(read(views(items@)[i as int]) is None);
                return None;
            },
        }
        i += 1;
    }
    proof {
        let all = views(items@);
        assert forall|k: int| 0 <= k < all.len() implies read(#[trigger] all[k]) is Some by {
            assert(text_in(items@[k]@) == Some(out@[k]@));
        }
        assert(all.map_values(|item: JsonView| read(item)->0) =~= out@.map_values(
            |item: String| item@,
        )) by {
            assert forall|k: int| 0 <= k < all.len() implies read(#[trigger] all[k])->0 == (out@[k]@) by {
                assert(text_in(items@[k]@) == Some(out@[k]@));
            }
        }
    }
    Some(out)
}

fn write_turns(items: &Vec<TurnKey>) -> (r: Json)
    ensures
        r@ == JsonView::Array(items@.map_values(|item: TurnKey| turn_document(turn_view(item)))),
{
    let mut out: Vec<Json> = Vec::new();
    let mut i: usize = 0;
    while i < items.len()
        invariant
            i <= items@.len(),
            out@.len() == i,
            forall|k: int|
                0 <= k < i ==> (#[trigger] out@[k])@ == turn_document(turn_view(items@[k])),
        decreases items@.len() - i,
    {
        out.push(write_turn(&items[i]));
        i += 1;
    }
    assert(views(out@) =~= items@.map_values(|item: TurnKey| turn_document(turn_view(item))));
    write_array(out)
}

fn read_turns(value: &Json) -> (r: Option<Vec<TurnKey>>)
    ensures
        match r {
            Some(items) => list(Some(value@), |item: JsonView| turn_in(item)) == Some(
                items@.map_values(|item: TurnKey| turn_view(item)),
            ),
            None => list(Some(value@), |item: JsonView| turn_in(item)) is None,
        },
{
    let items = match value.as_array() {
        Some(items) => items,
        None => {
            return None;
        },
    };
    let ghost read = |item: JsonView| turn_in(item);
    let mut out: Vec<TurnKey> = Vec::new();
    let mut i: usize = 0;
    while i < items.len()
        invariant
            i <= items@.len(),
            read == (|item: JsonView| turn_in(item)),
            value@ == JsonView::Array(views(items@)),
            out@.len() == i,
            forall|k: int|
                0 <= k < i ==> turn_in(items@[k]@) == Some(turn_view(#[trigger] out@[k])),
        decreases items@.len() - i,
    {
        match read_turn(&items[i]) {
            Some(item) => {
                out.push(item);
            },
            None => {
                assert(read(views(items@)[i as int]) is None);
                return None;
            },
        }
        i += 1;
    }
    proof {
        let all = views(items@);
        assert forall|k: int| 0 <= k < all.len() implies read(#[trigger] all[k]) is Some by {
            assert(turn_in(items@[k]@) == Some(turn_view(out@[k])));
        }
        assert(all.map_values(|item: JsonView| read(item)->0) =~= out@.map_values(
            |item: TurnKey| turn_view(item),
        )) by {
            assert forall|k: int| 0 <= k < all.len() implies read(#[trigger] all[k])->0 == (turn_view(out@[k])) by {
                assert(turn_in(items@[k]@) == Some(turn_view(out@[k])));
            }
        }
    }
    Some(out)
}

fn write_engines(items: &Vec<SuspendedExternalEngine>) -> (r: Json)
    ensures
        r@ == JsonView::Array(items@.map_values(|item: SuspendedExternalEngine| engine_document(engine_view(item)))),
{
    let mut out: Vec<Json> = Vec::new();
    let mut i: usize = 0;
    while i < items.len()
        invariant
            i <= items@.len(),
            out@.len() == i,
            forall|k: int|
                0 <= k < i ==> (#[trigger] out@[k])@ == engine_document(engine_view(items@[k])),
        decreases items@.len() - i,
    {
        out.push(write_engine(&items[i]));
        i += 1;
    }
    assert(views(out@) =~= items@.map_values(|item: SuspendedExternalEngine| engine_document(engine_view(item))));
    write_array(out)
}

fn read_engines(value: &Json) -> (r: Option<Vec<SuspendedExternalEngine>>)
    ensures
        match r {
            Some(items) => list(Some(value@), |item: JsonView| engine_in(item)) == Some(
                items@.map_values(|item: SuspendedExternalEngine| engine_view(item)),
            ),
            None => list(Some(value@), |item: JsonView| engine_in(item)) is None,
        },
{
    let items = match value.as_array() {
        Some(items) => items,
        None => {
            return None;
        },
    };
    let ghost read = |item: JsonView| engine_in(item);
    let mut out: Vec<SuspendedExternalEngine> = Vec::new();
    let mut i: usize = 0;
    while i < items.len()
        invariant
            i <= items@.len(),
            read == (|item: JsonView| engine_in(item)),
            value@ == JsonView::Array(views(items@)),
            out@.len() == i,
            forall|k: int|
                0 <= k < i ==> engine_in(items@[k]@) == Some(engine_view(#[trigger] out@[k])),
        decreases items@.len() - i,
    {
        match read_engine(&items[i]) {
            Some(item) => {
                out.push(item);
            },
            None => {
                assert(read(views(items@)[i as int]) is None);
                return None;
            },
        }
        i += 1;
    }
    proof {
        let all = views(items@);
        assert forall|k: int| 0 <= k < all.len() implies read(#[trigger] all[k]) is Some by {
            assert(engine_in(items@[k]@) == Some(engine_view(out@[k])));
        }
        assert(all.map_values(|item: JsonView| read(item)->0) =~= out@.map_values(
            |item: SuspendedExternalEngine| engine_view(item),
        )) by {
            assert forall|k: int| 0 <= k < all.len() implies read(#[trigger] all[k])->0 == (engine_view(out@[k])) by {
                assert(engine_in(items@[k]@) == Some(engine_view(out@[k])));
            }
        }
    }
    Some(out)
}

fn write_activities(items: &Vec<QuotaGuardActivityEntry>) -> (r: Json)
    ensures
        r@ == JsonView::Array(items@.map_values(|item: QuotaGuardActivityEntry| activity_document(item@))),
{
    let mut out: Vec<Json> = Vec::new();
    let mut i: usize = 0;
    while i < items.len()
        invariant
            i <= items@.len(),
            out@.len() == i,
            forall|k: int|
                0 <= k < i ==> (#[trigger] out@[k])@ == activity_document(items@[k]@),
        decreases items@.len() - i,
    {
        out.push(write_activity(&items[i]));
        i += 1;
    }
    assert(views(out@) =~= items@.map_values(|item: QuotaGuardActivityEntry| activity_document(item@)));
    write_array(out)
}

fn read_activities(value: &Json) -> (r: Option<Vec<QuotaGuardActivityEntry>>)
    ensures
        match r {
            Some(items) => list(Some(value@), |item: JsonView| activity_in(item)) == Some(
                items@.map_values(|item: QuotaGuardActivityEntry| item@),
            ),
            None => list(Some(value@), |item: JsonView| activity_in(item)) is None,
        },
{
    let items = match value.as_array() {
        Some(items) => items,
        None => {
            return None;
        },
    };
    let ghost read = |item: JsonView| activity_in(item);
    let mut out: Vec<QuotaGuardActivityEntry> = Vec::new();
    let mut i: usize = 0;
    while i < items.len()
        invariant
            i <= items@.len(),
            read == (|item: JsonView| activity_in(item)),
            value@ == JsonView::Array(views(items@)),
            out@.len() == i,
            forall|k: int|
                0 <= k < i ==> activity_in(items@[k]@) == Some(#[trigger] out@[k]@),
        decreases items@.len() - i,
    {
        match read_activity(&items[i]) {
            Some(item) => {
                out.push(item);
            },
            None => {
                assert(read(views(items@)[i as int]) is None);
                return None;
            },
        }
        i += 1;
    }
    proof {
        let all = views(items@);
        assert forall|k: int| 0 <= k < all.len() implies read(#[trigger] all[k]) is Some by {
            assert(activity_in(items@[k]@) == Some(out@[k]@));
        }
        assert(all.map_values(|item: JsonView| read(item)->0) =~= out@.map_values(
            |item: QuotaGuardActivityEntry| item@,
        )) by {
            assert forall|k: int| 0 <= k < all.len() implies read(#[trigger] all[k])->0 == (out@[k]@) by {
                assert(activity_in(items@[k]@) == Some(out@[k]@));
            }
        }
    }
    Some(out)
}

/// What is kept of an account. The rest lives only as long as the process.
#[verifier::ext_equal]
pub struct KeptAccount {
    pub account_key: Seq<char>,
    pub phase: QuotaGuardPhase,
    pub snapshot: Option<SnapshotView>,
    pub associated_workspace_ids: Seq<Seq<char>>,
    pub local_turn_registry: Seq<TurnView>,
    pub activity_entries: Seq<ActivityView>,
    pub suspended_external_engines: Seq<EngineView>,
    pub monitor_healthy: bool,
    pub last_error: Option<Seq<char>>,
    pub updated_at: i64,
    pub fire_at_or_above_on_next_snapshot: bool,
}

/// What is kept of an account.
pub open spec fn kept_account(account: AccountView) -> KeptAccount {
    KeptAccount {
        account_key: account.account_key@,
        phase: account.phase,
        snapshot: snapshot_view(account.snapshot),
        associated_workspace_ids: account.associated_workspace_ids.map_values(|item: String| item@),
        local_turn_registry: account.local_turn_registry.map_values(
            |item: TurnKey| turn_view(item),
        ),
        activity_entries: account.activity_entries,
        suspended_external_engines: account.suspended_external_engines.map_values(
            |item: SuspendedExternalEngine| engine_view(item),
        ),
        monitor_healthy: account.monitor_healthy,
        last_error: account.last_error,
        updated_at: account.updated_at,
        fire_at_or_above_on_next_snapshot: account.fire_at_or_above_on_next_snapshot,
    }
}

/// Whether the account holds nothing that is not kept.
pub open spec fn holds_only_what_is_kept(account: AccountView) -> bool {
    &&& account.breached_windows.len() == 0
    &&& account.fired_episodes.len() == 0
    &&& account.episode_policy is None
    &&& account.pending_local_starts.len() == 0
    &&& account.unmatched_started_turns.len() == 0
    &&& account.terminal_observations.len() == 0
    &&& account.pending_interrupt_index.len() == 0
}

/// An account as a document.
pub open spec fn account_document(account: KeptAccount) -> JsonView {
    JsonView::Object(
        seq![
            ("accountKey"@, JsonView::Text(account.account_key)),
            ("phase"@, JsonView::Text(spec_phase_name(account.phase))),
            ("snapshot"@, optional_snapshot_document(account.snapshot)),
            (
                "associatedWorkspaceIds"@,
                JsonView::Array(
                    account.associated_workspace_ids.map_values(|s: Seq<char>| text_document(s)),
                ),
            ),
            (
                "localTurnRegistry"@,
                JsonView::Array(
                    account.local_turn_registry.map_values(|turn: TurnView| turn_document(turn)),
                ),
            ),
            (
                "activityEntries"@,
                JsonView::Array(
                    account.activity_entries.map_values(
                        |entry: ActivityView| activity_document(entry),
                    ),
                ),
            ),
            (
                "suspendedExternalEngines"@,
                JsonView::Array(
                    account.suspended_external_engines.map_values(
                        |engine: EngineView| engine_document(engine),
                    ),
                ),
            ),
            ("monitorHealthy"@, JsonView::Bool(account.monitor_healthy)),
            ("lastError"@, optional_text_document(account.last_error)),
            ("updatedAt"@, signed_document(account.updated_at)),
            (
                "fireAtOrAboveOnNextSnapshot"@,
                JsonView::Bool(account.fire_at_or_above_on_next_snapshot),
            ),
        ],
    )
}

/// The phase in a member.
pub open spec fn phase_in(value: Option<JsonView>) -> Option<QuotaGuardPhase> {
    match text_value(value) {
        Some(name) => QuotaGuardPhase::named(name),
        None => None,
    }
}

/// A truth value in a member that may be missing, and is then false.
pub open spec fn truth_or_false(value: Option<JsonView>) -> Option<bool> {
    match value {
        None => Some(false),
        Some(_) => truth(value),
    }
}

/// The account in a document.
pub open spec fn account_in(value: JsonView) -> Option<KeptAccount> {
    if !value.is_record(10, 11) {
        None
    } else {
        match (
            text_value(value.field("accountKey"@, 0)),
            phase_in(value.field("phase"@, 1)),
            optional_snapshot_in(value.field("snapshot"@, 2)),
            list(value.field("associatedWorkspaceIds"@, 3), |item: JsonView| text_in(item)),
            list(value.field("localTurnRegistry"@, 4), |item: JsonView| turn_in(item)),
            optional_list(value.field("activityEntries"@, 5), |item: JsonView| activity_in(item)),
            optional_list(value.field("suspendedExternalEngines"@, 6), |item: JsonView| engine_in(item)),
            truth(value.field("monitorHealthy"@, 7)),
            optional_text(value.field("lastError"@, 8)),
            integer(value.field("updatedAt"@, 9)),
            truth_or_false(value.field("fireAtOrAboveOnNextSnapshot"@, 10)),
        ) {
            (
                Some(account_key),
                Some(phase),
                Some(snapshot),
                Some(associated_workspace_ids),
                Some(local_turn_registry),
                Some(activity_entries),
                Some(suspended_external_engines),
                Some(monitor_healthy),
                Some(last_error),
                Some(updated_at),
                Some(fire_at_or_above_on_next_snapshot),
            ) => Some(
                KeptAccount {
                    account_key,
                    phase,
                    snapshot,
                    associated_workspace_ids,
                    local_turn_registry,
                    activity_entries,
                    suspended_external_engines,
                    monitor_healthy,
                    last_error,
                    updated_at,
                    fire_at_or_above_on_next_snapshot,
                },
            ),
            _ => None,
        }
    }
}

fn write_account(account: &AccountRuntime) -> (r: Json)
    ensures
        r@ == account_document(kept_account(account@)),
{
    let members: Vec<(String, Json)> = vec![
        member("accountKey", Json::Text(account.account_key.clone())),
        member("phase", Json::Text(phase_name(account.phase).to_owned())),
        member("snapshot", write_snapshot(&account.snapshot)),
        member("associatedWorkspaceIds", write_texts(&account.associated_workspace_ids)),
        member("localTurnRegistry", write_turns(&account.local_turn_registry)),
        member("activityEntries", write_activities(&account.activity_entries)),
        member("suspendedExternalEngines", write_engines(&account.suspended_external_engines)),
        member("monitorHealthy", Json::Bool(account.monitor_healthy)),
        member("lastError", write_optional_text(&account.last_error)),
        member("updatedAt", write_signed(account.updated_at)),
        member(
            "fireAtOrAboveOnNextSnapshot",
            Json::Bool(account.fire_at_or_above_on_next_snapshot),
        ),
    ];
    proof {
        lemma_object_view(members);
        let kept = kept_account(account@);
        assert(account.associated_workspace_ids@.map_values(|item: String| text_document(item@))
            =~= kept.associated_workspace_ids.map_values(|s: Seq<char>| text_document(s)));
        assert(account.local_turn_registry@.map_values(
            |item: TurnKey| turn_document(turn_view(item)),
        ) =~= kept.local_turn_registry.map_values(|turn: TurnView| turn_document(turn)));
        assert(account.activity_entries@.map_values(
            |item: QuotaGuardActivityEntry| activity_document(item@),
        ) =~= kept.activity_entries.map_values(|entry: ActivityView| activity_document(entry)));
        assert(account.suspended_external_engines@.map_values(
            |item: SuspendedExternalEngine| engine_document(engine_view(item)),
        ) =~= kept.suspended_external_engines.map_values(
            |engine: EngineView| engine_document(engine),
        ));
        assert(entry_views(members@) =~= account_document(kept)->Object_0);
    }
    Json::Object(members)
}

fn read_account(value: &Json) -> (r: Option<AccountRuntime>)
    ensures
        match r {
            Some(account) => account_in(value@) == Some(kept_account(account@))
                && holds_only_what_is_kept(account@),
            None => account_in(value@) is None,
        },
{
    if !value.is_record(10, 11) {
        return None;
    }
    let phase = match read_text(value.field("phase", 1)) {
        Some(name) => QuotaGuardPhase::from_persisted(name.as_str()),
        None => None,
    };
    let workspaces = match value.field("associatedWorkspaceIds", 3) {
        Some(items) => read_texts(items),
        None => None,
    };
    let turns = match value.field("localTurnRegistry", 4) {
        Some(items) => read_turns(items),
        None => None,
    };
    let activity = match value.field("activityEntries", 5) {
        Some(items) => read_activities(items),
        None => {
            let none: Vec<QuotaGuardActivityEntry> = Vec::new();
            assert(none@.map_values(|item: QuotaGuardActivityEntry| item@) =~= Seq::<
                ActivityView,
            >::empty());
            Some(none)
        },
    };
    let engines = match value.field("suspendedExternalEngines", 6) {
        Some(items) => read_engines(items),
        None => {
            let none: Vec<SuspendedExternalEngine> = Vec::new();
            assert(none@.map_values(|item: SuspendedExternalEngine| engine_view(item)) =~= Seq::<
                EngineView,
            >::empty());
            Some(none)
        },
    };
    let fires = match value.field("fireAtOrAboveOnNextSnapshot", 10) {
        Some(json) => read_truth(Some(json)),
        None => Some(false),
    };
    match (
        read_text(value.field("accountKey", 0)),
        phase,
        read_snapshot(value.field("snapshot", 2)),
        workspaces,
        turns,
        activity,
        engines,
        read_truth(value.field("monitorHealthy", 7)),
        read_optional_text(value.field("lastError", 8)),
        read_integer(value.field("updatedAt", 9)),
        fires,
    ) {
        (
            Some(account_key),
            Some(phase),
            Some(snapshot),
            Some(associated_workspace_ids),
            Some(local_turn_registry),
            Some(activity_entries),
            Some(suspended_external_engines),
            Some(monitor_healthy),
            Some(last_error),
            Some(updated_at),
            Some(fire_at_or_above_on_next_snapshot),
        ) => {
            let account = AccountRuntime {
                account_key,
                phase,
                snapshot,
                associated_workspace_ids,
                local_turn_registry,
                activity_entries,
                suspended_external_engines,
                monitor_healthy,
                last_error,
                updated_at,
                breached_windows: Vec::new(),
                fired_episodes: Vec::new(),
                episode_policy: None,
                pending_local_starts: Vec::new(),
                unmatched_started_turns: Vec::new(),
                terminal_observations: Vec::new(),
                pending_interrupt_index: Vec::new(),
                fire_at_or_above_on_next_snapshot,
            };
            proof {
                assert(account@.activity_entries =~= account.activity_entries@.map_values(
                    |item: QuotaGuardActivityEntry| item@,
                ));
            }
            Some(account)
        },
        _ => None,
    }
}

/// The account without credits that are null.
pub open spec fn account_without_null_credits(account: KeptAccount) -> KeptAccount {
    KeptAccount { snapshot: snapshot_without_null_credits(account.snapshot), ..account }
}

/// An account is read back as it was written, but for what is not kept. Credits that are null
/// are read as none.
pub proof fn accounts_are_read_back(account: KeptAccount)
    ensures
        account_in(account_document(account)) == Some(account_without_null_credits(account)),
{
    reveal_strlit("accountKey");
    reveal_strlit("phase");
    reveal_strlit("snapshot");
    reveal_strlit("associatedWorkspaceIds");
    reveal_strlit("localTurnRegistry");
    reveal_strlit("activityEntries");
    reveal_strlit("suspendedExternalEngines");
    reveal_strlit("monitorHealthy");
    reveal_strlit("lastError");
    reveal_strlit("updatedAt");
    reveal_strlit("fireAtOrAboveOnNextSnapshot");
    assert("accountKey"@.len() == 10);
    assert("phase"@.len() == 5);
    assert("snapshot"@.len() == 8);
    assert("associatedWorkspaceIds"@.len() == 22);
    assert("localTurnRegistry"@.len() == 17);
    assert("activityEntries"@.len() == 15);
    assert("suspendedExternalEngines"@.len() == 24);
    assert("monitorHealthy"@.len() == 14);
    assert("lastError"@.len() == 9 && "lastError"@[0] == 'l');
    assert("updatedAt"@.len() == 9 && "updatedAt"@[0] == 'u');
    assert("fireAtOrAboveOnNextSnapshot"@.len() == 27);
    let entries = account_document(account)->Object_0;
    lemma_member_at(entries, 0);
    lemma_member_at(entries, 1);
    lemma_member_at(entries, 2);
    lemma_member_at(entries, 3);
    lemma_member_at(entries, 4);
    lemma_member_at(entries, 5);
    lemma_member_at(entries, 6);
    lemma_member_at(entries, 7);
    lemma_member_at(entries, 8);
    lemma_member_at(entries, 9);
    lemma_member_at(entries, 10);
    phase_names_are_read_back(account.phase);
    snapshots_are_read_back(account.snapshot);
    lemma_list_read_back(
        account.associated_workspace_ids,
        |s: Seq<char>| text_document(s),
        |item: JsonView| text_in(item),
    );
    assert forall|i: int| 0 <= i < account.local_turn_registry.len() implies turn_in(
        turn_document(#[trigger] account.local_turn_registry[i]),
    ) == Some(account.local_turn_registry[i]) by {
        turns_are_read_back(account.local_turn_registry[i]);
    }
    lemma_list_read_back(
        account.local_turn_registry,
        |turn: TurnView| turn_document(turn),
        |item: JsonView| turn_in(item),
    );
    assert forall|i: int| 0 <= i < account.activity_entries.len() implies activity_in(
        activity_document(#[trigger] account.activity_entries[i]),
    ) == Some(account.activity_entries[i]) by {
        activity_is_read_back(account.activity_entries[i]);
    }
    lemma_list_read_back(
        account.activity_entries,
        |entry: ActivityView| activity_document(entry),
        |item: JsonView| activity_in(item),
    );
    assert forall|i: int| 0 <= i < account.suspended_external_engines.len() implies engine_in(
        engine_document(#[trigger] account.suspended_external_engines[i]),
    ) == Some(account.suspended_external_engines[i]) by {
        engines_are_read_back(account.suspended_external_engines[i]);
    }
    lemma_list_read_back(
        account.suspended_external_engines,
        |engine: EngineView| engine_document(engine),
        |item: JsonView| engine_in(item),
    );
}

/// What is kept of the limiter's state.
#[verifier::ext_equal]
pub struct KeptState {
    pub schema_version: u32,
    pub lifecycle_generation: u64,
    pub next_operation_id: u64,
    pub account: Option<KeptAccount>,
    pub effective_settings: Option<QuotaGuardSettings>,
}

/// What is kept of the limiter's state.
pub open spec fn kept_state(state: RuntimeView) -> KeptState {
    KeptState {
        schema_version: state.schema_version,
        lifecycle_generation: state.lifecycle_generation,
        next_operation_id: state.next_operation_id,
        account: match state.account {
            Some(account) => Some(kept_account(account)),
            None => None,
        },
        effective_settings: state.effective_settings,
    }
}

/// Whether the state holds nothing that is not kept.
pub open spec fn state_holds_only_what_is_kept(state: RuntimeView) -> bool {
    &&& state.pending_thresholds is None
    &&& state.account matches Some(account) ==> holds_only_what_is_kept(account)
}

/// An account or null as a document.
pub open spec fn optional_account_document(account: Option<KeptAccount>) -> JsonView {
    match account {
        Some(account) => account_document(account),
        None => JsonView::Null,
    }
}

/// The limiter's state as a document.
pub open spec fn state_document(state: KeptState) -> JsonView {
    JsonView::Object(
        seq![
            ("schemaVersion"@, unsigned_document(state.schema_version as u64)),
            ("lifecycleGeneration"@, unsigned_document(state.lifecycle_generation)),
            ("nextOperationId"@, unsigned_document(state.next_operation_id)),
            ("account"@, optional_account_document(state.account)),
            ("effectiveSettings"@, optional_settings_document(state.effective_settings)),
        ],
    )
}

/// The account in a member that may be missing or null.
pub open spec fn optional_account_in(value: Option<JsonView>) -> Option<Option<KeptAccount>> {
    match optional(value) {
        None => Some(None),
        Some(document) => match account_in(document) {
            Some(account) => Some(Some(account)),
            None => None,
        },
    }
}

/// A number in a member that may be missing, and is then zero.
pub open spec fn whole_or_zero(value: Option<JsonView>) -> Option<u64> {
    match value {
        None => Some(0),
        Some(_) => whole_within(value, u64::MAX),
    }
}

/// The limiter's state in a document.
pub open spec fn state_in(value: JsonView) -> Option<KeptState> {
    if !value.is_record(4, 5) {
        None
    } else {
        match (
            whole_within(value.field("schemaVersion"@, 0), u32::MAX as u64),
            whole_within(value.field("lifecycleGeneration"@, 1), u64::MAX),
            whole_or_zero(value.field("nextOperationId"@, 2)),
            optional_account_in(value.field("account"@, 3)),
            optional_settings_in(value.field("effectiveSettings"@, 4)),
        ) {
            (
                Some(schema_version),
                Some(lifecycle_generation),
                Some(next_operation_id),
                Some(account),
                Some(effective_settings),
            ) => Some(
                KeptState {
                    schema_version: schema_version as u32,
                    lifecycle_generation,
                    next_operation_id,
                    account,
                    effective_settings,
                },
            ),
            _ => None,
        }
    }
}

/// The limiter's state as a document.
pub fn write_state(state: &QuotaGuardRuntimeState) -> (r: Json)
    ensures
        r@ == state_document(kept_state(state@)),
{
    let account = match &state.account {
        Some(account) => write_account(account),
        None => Json::Null,
    };
    let settings = match &state.effective_settings {
        Some(settings) => write_settings(settings),
        None => Json::Null,
    };
    let members: Vec<(String, Json)> = vec![
        member("schemaVersion", write_unsigned(state.schema_version as u64)),
        member("lifecycleGeneration", write_unsigned(state.lifecycle_generation)),
        member("nextOperationId", write_unsigned(state.next_operation_id)),
        member("account", account),
        member("effectiveSettings", settings),
    ];
    proof {
        lemma_object_view(members);
        assert(entry_views(members@) =~= state_document(kept_state(state@))->Object_0);
    }
    Json::Object(members)
}

/// Reads the limiter's state from a document.
pub fn read_state(document: &Json) -> (r: Option<QuotaGuardRuntimeState>)
    ensures
        match r {
            Some(state) => state_in(document@) == Some(kept_state(state@))
                && state_holds_only_what_is_kept(state@),
            None => state_in(document@) is None,
        },
{
    if !document.is_record(4, 5) {
        return None;
    }
    let operation = match document.field("nextOperationId", 2) {
        Some(json) => read_whole(Some(json), u64::MAX),
        None => Some(0),
    };
    let account = match document.field("account", 3) {
        None => Some(None),
        Some(Json::Null) => Some(None),
        Some(json) => match read_account(json) {
            Some(account) => Some(Some(account)),
            None => None,
        },
    };
    let settings = match document.field("effectiveSettings", 4) {
        None => Some(None),
        Some(Json::Null) => Some(None),
        Some(json) => match read_settings(json) {
            Some(settings) => Some(Some(settings)),
            None => None,
        },
    };
    match (
        read_whole(document.field("schemaVersion", 0), u32::MAX as u64),
        read_whole(document.field("lifecycleGeneration", 1), u64::MAX),
        operation,
        account,
        settings,
    ) {
        (
            Some(schema_version),
            Some(lifecycle_generation),
            Some(next_operation_id),
            Some(account),
            Some(effective_settings),
        ) => Some(
            QuotaGuardRuntimeState {
                schema_version: schema_version as u32,
                lifecycle_generation,
                next_operation_id,
                account,
                effective_settings,
                pending_thresholds: None,
            },
        ),
        _ => None,
    }
}

/// The state without credits that are null.
pub open spec fn without_null_credits(state: KeptState) -> KeptState {
    KeptState {
        account: match state.account {
            Some(account) => Some(account_without_null_credits(account)),
            None => None,
        },
        ..state
    }
}

/// The limiter's state is read back as it was written, but for what is not kept. Credits that
/// are null are read as none.
pub proof fn states_are_read_back(state: KeptState)
    ensures
        state_in(state_document(state)) == Some(without_null_credits(state)),
{
    reveal_strlit("schemaVersion");
    reveal_strlit("lifecycleGeneration");
    reveal_strlit("nextOperationId");
    reveal_strlit("account");
    reveal_strlit("effectiveSettings");
    assert("schemaVersion"@.len() == 13);
    assert("lifecycleGeneration"@.len() == 19);
    assert("nextOperationId"@.len() == 15);
    assert("account"@.len() == 7);
    assert("effectiveSettings"@.len() == 17);
    let entries = state_document(state)->Object_0;
    lemma_member_at(entries, 0);
    lemma_member_at(entries, 1);
    lemma_member_at(entries, 2);
    lemma_member_at(entries, 3);
    lemma_member_at(entries, 4);
    if let Some(account) = state.account {
        accounts_are_read_back(account);
    }
    if let Some(settings) = state.effective_settings {
        settings_are_read_back(settings);
    }
}

} // verus!
