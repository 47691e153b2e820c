//! What the limiter shows of itself, as a document.

use crate::collections::KeyedList;
use crate::json::{first_under, views, Json, JsonView};
use crate::json_order::{name_ordered, sort_members, sorted, sorting_keeps_the_members};
use crate::json_text::{distinct_names, lemma_under_has_position, lemma_under_pushed};
use crate::members::{
    member, optional_signed_document, optional_text_document, optional_unsigned_document,
    signed_document, write_array, write_optional_signed, write_optional_text,
    write_optional_unsigned, write_signed,
};
use crate::model::QuotaWindowKind;
use crate::persistence::{entry_views, lemma_object_view};
use crate::public_state::{
    phase_name, spec_phase_name, AdmissionProjection, AdmissionView, PublicActivityView,
    PublicStateView, PublicTurnView, QuotaGuardPublicActivityEntry, QuotaGuardPublicState,
    QuotaGuardPublicTurn,
};
use crate::state_file::{
    attempt_number, kind_name, optional_snapshot_document, spec_kind_name, write_snapshot,
};
use crate::text::same_text;
use vstd::prelude::*;
use vstd::string::*;

verus! {

/// The name of a window.
pub open spec fn spec_window_name(kind: QuotaWindowKind) -> Seq<char> {
    match kind {
        QuotaWindowKind::Primary => "primary"@,
        QuotaWindowKind::Secondary => "secondary"@,
        QuotaWindowKind::HardLimit => "hardLimit"@,
    }
}

/// The name of a window.
pub fn window_name(kind: QuotaWindowKind) -> (r: &'static str)
    ensures
        r@ == spec_window_name(kind),
{
    match kind {
        QuotaWindowKind::Primary => "primary",
        QuotaWindowKind::Secondary => "secondary",
        QuotaWindowKind::HardLimit => "hardLimit",
    }
}

/// A turn as it is shown, as a document.
pub open spec fn public_turn_document(turn: PublicTurnView) -> JsonView {
    JsonView::Object(
        seq![
            ("workspaceId"@, JsonView::Text(turn.0)),
            ("threadId"@, JsonView::Text(turn.1)),
            ("turnId"@, JsonView::Text(turn.2)),
        ],
    )
}

/// A line of the activity log as it is shown, as a document.
pub open spec fn public_activity_document(entry: PublicActivityView) -> JsonView {
    JsonView::Object(
        seq![
            ("id"@, optional_text_document(entry.id)),
            ("kind"@, JsonView::Text(spec_kind_name(entry.kind))),
            ("timestamp"@, signed_document(entry.timestamp)),
            ("operationId"@, optional_text_document(entry.operation_id)),
            ("workspaceId"@, optional_text_document(entry.workspace_id)),
            ("threadId"@, optional_text_document(entry.thread_id)),
            ("turnId"@, optional_text_document(entry.turn_id)),
            ("attempt"@, optional_unsigned_document(attempt_number(entry.attempt))),
            ("message"@, optional_text_document(entry.message)),
        ],
    )
}

/// The admission of a workspace as a document.
pub open spec fn admission_document(admission: AdmissionView) -> JsonView {
    JsonView::Object(
        seq![
            ("sessionEpoch"@, optional_text_document(admission.session_epoch)),
            ("open"@, JsonView::Bool(admission.open)),
            ("reason"@, JsonView::Text(admission.reason)),
        ],
    )
}

/// Whether the document is an object with the admission of each workspace under its id, each once
/// and in the order of the ids, and nothing else.
pub open spec fn shows_admissions(
    document: JsonView,
    admissions: Map<Seq<char>, AdmissionView>,
) -> bool {
    &&& document matches JsonView::Object(entries) && name_ordered(entries) && distinct_names(
        entries,
    )
    &&& forall|key: Seq<char>|
        #[trigger] document.get(key) == if admissions.dom().contains(key) {
            Some(admission_document(admissions[key]))
        } else {
            None
        }
}

/// What is shown, as the members of a document, with `admissions` as the last one.
pub open spec fn public_members(state: PublicStateView, admissions: JsonView) -> Seq<
    (Seq<char>, JsonView),
> {
    seq![
        ("accountKey"@, optional_text_document(state.account_key)),
        ("accountLabel"@, optional_text_document(state.account_label)),
        ("phase"@, JsonView::Text(spec_phase_name(state.phase))),
        ("snapshot"@, optional_snapshot_document(state.snapshot)),
        ("snapshotFresh"@, JsonView::Bool(state.snapshot_fresh)),
        (
            "breachedWindows"@,
            JsonView::Array(
                state.breached_windows.map_values(
                    |kind: QuotaWindowKind| JsonView::Text(spec_window_name(kind)),
                ),
            ),
        ),
        (
            "affectedTurns"@,
            JsonView::Array(
                state.affected_turns.map_values(|turn: PublicTurnView| public_turn_document(turn)),
            ),
        ),
        ("drainDeadline"@, optional_signed_document(state.drain_deadline)),
        ("verifyAt"@, optional_signed_document(state.verify_at)),
        ("monitorHealthy"@, JsonView::Bool(state.monitor_healthy)),
        ("lastError"@, optional_text_document(state.last_error)),
        (
            "activity"@,
            JsonView::Array(
                state.activity.map_values(
                    |entry: PublicActivityView| public_activity_document(entry),
                ),
            ),
        ),
        ("admissionByWorkspace"@, admissions),
    ]
}

/// Whether the document shows the state: its members in their order, and the admissions in the
/// order of the workspaces' ids.
pub open spec fn shows(document: JsonView, state: PublicStateView) -> bool {
    exists|admissions: JsonView| #[trigger]
        shows_admissions(admissions, state.admission_by_workspace) && document
            == JsonView::Object(public_members(state, admissions))
}

fn write_public_turn(turn: &QuotaGuardPublicTurn) -> (r: Json)
    ensures
        r@ == public_turn_document((turn.workspace_id@, turn.thread_id@, turn.turn_id@)),
{
    let members: Vec<(String, Json)> = vec![
        member("workspaceId", Json::Text(turn.workspace_id.clone())),
        member("threadId", Json::Text(turn.thread_id.clone())),
        member("turnId", Json::Text(turn.turn_id.clone())),
    ];
    proof {
        lemma_object_view(members);
        assert(entry_views(members@) =~= public_turn_document(
            (turn.workspace_id@, turn.thread_id@, turn.turn_id@),
        )->Object_0);
    }
    Json::Object(members)
}

fn write_public_activity(entry: &QuotaGuardPublicActivityEntry) -> (r: Json)
    ensures
        r@ == public_activity_document(entry@),
{
    let attempt: Option<u64> = match entry.attempt {
        Some(n) => Some(n as u64),
        None => None,
    };
    let members: Vec<(String, Json)> = vec![
        member("id", write_optional_text(&entry.id)),
        member("kind", Json::Text(kind_name(entry.kind).to_owned())),
        member("timestamp", write_signed(entry.timestamp)),
        member("operationId", write_optional_text(&entry.operation_id)),
        member("workspaceId", write_optional_text(&entry.workspace_id)),
        member("threadId", write_optional_text(&entry.thread_id)),
        member("turnId", write_optional_text(&entry.turn_id)),
        member("attempt", write_optional_unsigned(attempt)),
        member("message", write_optional_text(&entry.message)),
    ];
    proof {
        lemma_object_view(members);
        assert(entry_views(members@) =~= public_activity_document(entry@)->Object_0);
    }
    Json::Object(members)
}

fn write_admission(admission: &AdmissionProjection) -> (r: Json)
    ensures
        r@ == admission_document(admission@),
{
    let members: Vec<(String, Json)> = vec![
        member("sessionEpoch", write_optional_text(&admission.session_epoch)),
        member("open", Json::Bool(admission.open)),
        member("reason", Json::Text(admission.reason.clone())),
    ];
    proof {
        lemma_object_view(members);
        assert(entry_views(members@) =~= admission_document(admission@)->Object_0);
    }
    Json::Object(members)
}

/// Where every member holds what its name calls for, so does the first one under a name.
proof fn lemma_called_for(
    entries: Seq<(Seq<char>, JsonView)>,
    called: Map<Seq<char>, JsonView>,
    key: Seq<char>,
)
    requires
        forall|i: int| #![trigger entries[i]]
            0 <= i < entries.len() ==> called.dom().contains(entries[i].0) && entries[i].1
                == called[entries[i].0],
    ensures
        match first_under(entries, key) {
            Some(value) => called.dom().contains(key) && value == called[key],
            None => forall|i: int| 0 <= i < entries.len() ==> (#[trigger] entries[i]).0 != key,
        },
    decreases entries.len(),
{
    if entries.len() > 0 && entries[0].0 != key {
        let rest = entries.drop_first();
        assert forall|i: int| #![trigger rest[i]] 0 <= i < rest.len() implies called.dom().contains(
            rest[i].0,
        ) && rest[i].1 == called[rest[i].0] by {
            assert(rest[i] == entries[i + 1]);
        }
        lemma_called_for(rest, called, key);
        if first_under(entries, key) is None {
            assert forall|i: int| 0 <= i < entries.len() implies (#[trigger] entries[i]).0 != key by {
                if i > 0 {
                    assert(rest[i - 1] == entries[i]);
                }
            }
        }
    }
}

fn write_admissions(admissions: &KeyedList<AdmissionProjection>) -> (r: Json)
    ensures
        shows_admissions(
            r@,
            admissions@.map_values(|projection: AdmissionProjection| projection@),
        ),
{
    let ghost shown = admissions@.map_values(|projection: AdmissionProjection| projection@);
    let ghost called = shown.map_values(|admission: AdmissionView| admission_document(admission));
    let mut members: Vec<(String, Json)> = Vec::new();
    let mut i: usize = 0;
    let count = admissions.len();
    while i < count
        invariant
            i <= count,
            count == admissions.spec_len(),
            shown == admissions@.map_values(|projection: AdmissionProjection| projection@),
            called == shown.map_values(
                |admission: AdmissionView| admission_document(admission),
            ),
            distinct_names(entry_views(members@)),
            forall|k: int| #![trigger members@[k]]
                0 <= k < members@.len() ==> called.dom().contains(members@[k].0@)
                    && members@[k].1@ == called[members@[k].0@],
            forall|k: int|
                0 <= k < i ==> first_under(
                    entry_views(members@),
                    #[trigger] admissions.key_at(k),
                ) is Some,
        decreases count - i,
    {
        let key = admissions.key(i);
        let ghost before = entry_views(members@);
        if !has_member(&members, key) {
            if let Some(admission) = admissions.get(key) {
                let entry = member(key, write_admission(admission));
                members.push(entry);
                proof {
                    let after = entry_views(members@);
                    assert(after =~= before.push((entry.0@, entry.1@)));
                    lemma_under_has_position(before, key@);
                    assert forall|k: int, l: int| 0 <= k < l < after.len() implies (
                    #[trigger] after[k]).0 != (#[trigger] after[l]).0 by {
                        if l < before.len() {
                            assert(before[k].0 != before[l].0);
                        } else {
                            assert(before[k].0 != key@);
                        }
                    }
                    assert forall|k: int| 0 <= k < i + 1 implies first_under(
                        after,
                        #[trigger] admissions.key_at(k),
                    ) is Some by {
                        lemma_under_pushed(before, (entry.0@, entry.1@), admissions.key_at(k));
                    }
                }
            }
        }
        i += 1;
    }
    let ghost entries = entry_views(members@);
    let ghost held = members@;
    let members = sort_members(members);
    proof {
        lemma_object_view(members);
        sorting_keeps_the_members(entries);
        assert forall|k: int| #![trigger entries[k]] 0 <= k < entries.len() implies called.dom()
            .contains(entries[k].0) && entries[k].1 == called[entries[k].0] by {
            assert(entries[k] == (held[k].0@, held[k].1@));
        }
        assert forall|key: Seq<char>|
            #[trigger] JsonView::Object(sorted(entries)).get(key) == if shown.dom().contains(key) {
                Some(admission_document(shown[key]))
            } else {
                None
            } by {
            assert(first_under(sorted(entries), key) == first_under(entries, key));
            lemma_called_for(entries, called, key);
            if shown.dom().contains(key) {
                admissions.lemma_keys_have_positions(key);
                let at = choose|at: int|
                    0 <= at < admissions.spec_len() && #[trigger] admissions.key_at(at) == key;
                assert(first_under(entries, admissions.key_at(at)) is Some);
            }
        }
    }
    Json::Object(members)
}

fn has_member(members: &Vec<(String, Json)>, name: &str) -> (r: bool)
    ensures
        r == first_under(entry_views(members@), name@) is Some,
{
    let ghost all = entry_views(members@);
    let mut i: usize = 0;
    proof {
        lemma_under_has_position(all, name@);
    }
    while i < members.len()
        invariant
            i <= members@.len(),
            all == entry_views(members@),
            forall|k: int| 0 <= k < i ==> (#[trigger] all[k]).0 != name@,
            match first_under(all, name@) {
                Some(member) => exists|k: int|
                    0 <= k < all.len() && (#[trigger] all[k]).0 == name@ && all[k].1 == member,
                None => forall|k: int| 0 <= k < all.len() ==> (#[trigger] all[k]).0 != name@,
            },
        decreases members@.len() - i,
    {
        assert(all[i as int].0 == members@[i as int].0@);
        if same_text(members[i].0.as_str(), name) {
            return true;
        }
        i += 1;
    }
    false
}

/// The document that shows a state.
pub fn public_document(state: &QuotaGuardPublicState) -> (r: Json)
    ensures
        shows(r@, state@),
{
    let mut windows: Vec<Json> = Vec::new();
    let mut i: usize = 0;
    while i < state.breached_windows.len()
        invariant
            i <= state.breached_windows@.len(),
            windows@.len() == i,
            forall|k: int|
                0 <= k < i ==> (#[trigger] windows@[k])@ == JsonView::Text(
                    spec_window_name(state.breached_windows@[k]),
                ),
        decreases state.breached_windows@.len() - i,
    {
        windows.push(Json::Text(window_name(state.breached_windows[i]).to_owned()));
        i += 1;
    }
    let mut turns: Vec<Json> = Vec::new();
    let mut i: usize = 0;
    while i < state.affected_turns.len()
        invariant
            i <= state.affected_turns@.len(),
            turns@.len() == i,
            forall|k: int|
                0 <= k < i ==> (#[trigger] turns@[k])@ == public_turn_document(
                    state@.affected_turns[k],
                ),
        decreases state.affected_turns@.len() - i,
    {
        turns.push(write_public_turn(&state.affected_turns[i]));
        i += 1;
    }
    let mut activity: Vec<Json> = Vec::new();
    let mut i: usize = 0;
    while i < state.activity.len()
        invariant
            i <= state.activity@.len(),
            activity@.len() == i,
            forall|k: int|
                0 <= k < i ==> (#[trigger] activity@[k])@ == public_activity_document(
                    state@.activity[k],
                ),
        decreases state.activity@.len() - i,
    {
        activity.push(write_public_activity(&state.activity[i]));
        i += 1;
    }
    let admissions = write_admissions(&state.admission_by_workspace);
    let ghost shown = admissions@;
    proof {
        assert(views(windows@) =~= state@.breached_windows.map_values(
            |kind: QuotaWindowKind| JsonView::Text(spec_window_name(kind)),
        ));
        assert(views(turns@) =~= state@.affected_turns.map_values(
            |turn: PublicTurnView| public_turn_document(turn),
        ));
        assert(views(activity@) =~= state@.activity.map_values(
            |entry: PublicActivityView| public_activity_document(entry),
        ));
    }
    let members: Vec<(String, Json)> = vec![
        member("accountKey", write_optional_text(&state.account_key)),
        member("accountLabel", write_optional_text(&state.account_label)),
        member("phase", Json::Text(phase_name(state.phase).to_owned())),
        member("snapshot", write_snapshot(&state.snapshot)),
        member("snapshotFresh", Json::Bool(state.snapshot_fresh)),
        member("breachedWindows", write_array(windows)),
        member("affectedTurns", write_array(turns)),
        member("drainDeadline", write_optional_signed(state.drain_deadline)),
        member("verifyAt", write_optional_signed(state.verify_at)),
        member("monitorHealthy", Json::Bool(state.monitor_healthy)),
        member("lastError", write_optional_text(&state.last_error)),
        member("activity", write_array(activity)),
        member("admissionByWorkspace", admissions),
    ];
    proof {
        lemma_object_view(members);
        assert(entry_views(members@) =~= public_members(state@, shown));
        assert(shows_admissions(shown, state@.admission_by_workspace));
    }
    Json::Object(members)
}

} // verus!
