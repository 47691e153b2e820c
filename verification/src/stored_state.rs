//! Documents with the same content hold the same state, and what is written of a state is
//! loaded again.

use crate::json::{first_under, json_in, JsonView};
use crate::json_order::{document_in, ordered, ordering_keeps_the_resemblance};
use crate::json_text::{
    fits, lemma_under_has_position, nests, resembles, same_content, what_fits_nests,
    what_resembles_a_fitting_one_has_its_content, writable, write_json_pretty, written,
    written_documents_are_resembled, UNWRITABLE_NUMBER,
};
use crate::members::{
    all_read, integer, list, optional, optional_integer, optional_list, optional_text,
    optional_whole, text_value, truth, whole_within,
};
use crate::model::{
    ActivityView, QuotaGuardRuntimeState, RateLimitWindow, RuntimeView, SnapshotView,
    STATE_SCHEMA_VERSION,
};
use crate::persistence::{loaded, LoadView};
use crate::settings::QuotaGuardSettings;
use crate::state_file::{
    account_document, account_in, account_without_null_credits, accounts_are_read_back,
    activity_document, activity_in, engine_document, engine_in, kept_state, lemma_member_at,
    settings_document, settings_in, snapshot_document, snapshot_in, snapshot_without_null_credits,
    snapshots_are_read_back, state_document, state_in, states_are_read_back, text_document, text_in,
    turn_document, turn_in, window_document, window_in, without_null_credits, write_state,
    EngineView, KeptAccount, KeptState, TurnView,
};
use crate::state_text::{retired_members_make_no_difference, state_in_text, StateFault};
use vstd::prelude::*;

verus! {

/// Whether the two members are both missing, or have the same content, which fits.
spec fn alike(x: Option<JsonView>, y: Option<JsonView>, room: nat) -> bool {
    match (x, y) {
        (None, None) => true,
        (Some(a), Some(b)) => same_content(a, b) && fits(a, room),
        _ => false,
    }
}

proof fn lemma_members_alike(a: JsonView, b: JsonView, room: nat, name: Seq<char>)
    requires
        same_content(a, b),
        fits(a, room),
        room > 0,
    ensures
        alike(a.get(name), b.get(name), (room - 1) as nat),
{
    if let JsonView::Object(entries) = a {
        let others = b->Object_0;
        assert(b.get(name) == crate::json::first_under(others, name));
        if let Some(member) = a.get(name) {
            lemma_found_fits(entries, name, (room - 1) as nat);
        }
    }
}

proof fn lemma_fields_alike(a: JsonView, b: JsonView, room: nat, name: Seq<char>, place: int)
    requires
        same_content(a, b),
        fits(a, room),
        room > 0,
    ensures
        alike(a.field(name, place), b.field(name, place), (room - 1) as nat),
{
    if let JsonView::Array(items) = a {
        let others = b->Array_0;
        if 0 <= place < items.len() {
            assert(same_content(items[place], others[place]));
            assert(fits(items[place], (room - 1) as nat));
        }
    } else {
        lemma_members_alike(a, b, room, name);
    }
}

proof fn lemma_found_fits(entries: Seq<(Seq<char>, JsonView)>, name: Seq<char>, room: nat)
    requires
        forall|i: int| 0 <= i < entries.len() ==> fits((#[trigger] entries[i]).1, room),
    ensures
        crate::json::first_under(entries, name) matches Some(member) ==> fits(member, room),
    decreases entries.len(),
{
    if entries.len() > 0 {
        let rest = entries.drop_first();
        assert(fits(entries[0].1, room));
        assert forall|i: int| 0 <= i < rest.len() implies fits((#[trigger] rest[i]).1, room) by {
            assert(fits(entries[i + 1].1, room));
        }
        lemma_found_fits(rest, name, room);
    }
}

proof fn lemma_alike_values(x: Option<JsonView>, y: Option<JsonView>, room: nat)
    requires
        alike(x, y, room),
    ensures
        text_value(x) == text_value(y),
        optional_text(x) == optional_text(y),
        integer(x) == integer(y),
        optional_integer(x) == optional_integer(y),
        truth(x) == truth(y),
        forall|limit: u64| whole_within(x, limit) == whole_within(y, limit),
        forall|limit: u64| optional_whole(x, limit) == optional_whole(y, limit),
        optional(x) is None <==> optional(y) is None,
        x is None <==> y is None,
{
}

proof fn lemma_alike_lists<T>(
    x: Option<JsonView>,
    y: Option<JsonView>,
    room: nat,
    read: spec_fn(JsonView) -> Option<T>,
)
    requires
        alike(x, y, room),
        x matches Some(JsonView::Array(items)) ==> forall|i: int|
            0 <= i < items.len() ==> read(#[trigger] items[i]) == read(y->0->Array_0[i]),
    ensures
        list(x, read) == list(y, read),
        optional_list(x, read) == optional_list(y, read),
{
    if let Some(JsonView::Array(items)) = x {
        let others = y->0->Array_0;
        assert(all_read(items, read) == all_read(others, read)) by {
            if forall|i: int| 0 <= i < items.len() ==> read(#[trigger] items[i]) is Some {
                assert forall|i: int| 0 <= i < others.len() implies read(
                    #[trigger] others[i],
                ) is Some by {
                    assert(read(items[i]) is Some);
                }
                assert(items.map_values(|item: JsonView| read(item)->0) =~= others.map_values(
                    |item: JsonView| read(item)->0,
                ));
            } else {
                let i = choose|i: int|
                    0 <= i < items.len() && !(read(#[trigger] items[i]) is Some);
                assert(!(read(others[i]) is Some));
            }
        }
    }
}

proof fn lemma_same_turn(a: JsonView, b: JsonView, room: nat)
    requires
        same_content(a, b),
        fits(a, room),
    ensures
        turn_in(a) == turn_in(b),
{
    if room > 0 {
        lemma_fields_alike(a, b, room, "sessionEpoch"@, 0);
        lemma_alike_values(
            a.field("sessionEpoch"@, 0),
            b.field("sessionEpoch"@, 0),
            (room - 1) as nat,
        );
        lemma_fields_alike(a, b, room, "workspaceId"@, 1);
        lemma_alike_values(
            a.field("workspaceId"@, 1),
            b.field("workspaceId"@, 1),
            (room - 1) as nat,
        );
        lemma_fields_alike(a, b, room, "threadId"@, 2);
        lemma_alike_values(
            a.field("threadId"@, 2),
            b.field("threadId"@, 2),
            (room - 1) as nat,
        );
        lemma_fields_alike(a, b, room, "turnId"@, 3);
        lemma_alike_values(
            a.field("turnId"@, 3),
            b.field("turnId"@, 3),
            (room - 1) as nat,
        );
    }
}

proof fn lemma_same_engine(a: JsonView, b: JsonView, room: nat)
    requires
        same_content(a, b),
        fits(a, room),
    ensures
        engine_in(a) == engine_in(b),
{
    if room > 0 {
        lemma_fields_alike(a, b, room, "pid"@, 0);
        lemma_alike_values(
            a.field("pid"@, 0),
            b.field("pid"@, 0),
            (room - 1) as nat,
        );
        lemma_fields_alike(a, b, room, "processStartTime"@, 1);
        lemma_alike_values(
            a.field("processStartTime"@, 1),
            b.field("processStartTime"@, 1),
            (room - 1) as nat,
        );
        lemma_fields_alike(a, b, room, "imagePath"@, 2);
        lemma_alike_values(
            a.field("imagePath"@, 2),
            b.field("imagePath"@, 2),
            (room - 1) as nat,
        );
        lemma_fields_alike(a, b, room, "suspendedAt"@, 3);
        lemma_alike_values(
            a.field("suspendedAt"@, 3),
            b.field("suspendedAt"@, 3),
            (room - 1) as nat,
        );
    }
}

proof fn lemma_same_window(a: JsonView, b: JsonView, room: nat)
    requires
        same_content(a, b),
        fits(a, room),
    ensures
        window_in(a) == window_in(b),
{
    if room > 0 {
        lemma_fields_alike(a, b, room, "usedPercent"@, 0);
        lemma_alike_values(
            a.field("usedPercent"@, 0),
            b.field("usedPercent"@, 0),
            (room - 1) as nat,
        );
        lemma_fields_alike(a, b, room, "windowDurationMins"@, 1);
        lemma_alike_values(
            a.field("windowDurationMins"@, 1),
            b.field("windowDurationMins"@, 1),
            (room - 1) as nat,
        );
        lemma_fields_alike(a, b, room, "resetsAt"@, 2);
        lemma_alike_values(
            a.field("resetsAt"@, 2),
            b.field("resetsAt"@, 2),
            (room - 1) as nat,
        );
    }
}

proof fn lemma_same_activity(a: JsonView, b: JsonView, room: nat)
    requires
        same_content(a, b),
        fits(a, room),
        a.field("kind"@, 1) matches Some(kind) ==> kind is Text,
    ensures
        activity_in(a) == activity_in(b),
{
    if room > 0 {
        lemma_fields_alike(a, b, room, "id"@, 0);
        lemma_alike_values(
            a.field("id"@, 0),
            b.field("id"@, 0),
            (room - 1) as nat,
        );
        lemma_fields_alike(a, b, room, "kind"@, 1);
        lemma_alike_values(
            a.field("kind"@, 1),
            b.field("kind"@, 1),
            (room - 1) as nat,
        );
        lemma_fields_alike(a, b, room, "timestamp"@, 2);
        lemma_alike_values(
            a.field("timestamp"@, 2),
            b.field("timestamp"@, 2),
            (room - 1) as nat,
        );
        lemma_fields_alike(a, b, room, "operationId"@, 3);
        lemma_alike_values(
            a.field("operationId"@, 3),
            b.field("operationId"@, 3),
            (room - 1) as nat,
        );
        lemma_fields_alike(a, b, room, "workspaceId"@, 4);
        lemma_alike_values(
            a.field("workspaceId"@, 4),
            b.field("workspaceId"@, 4),
            (room - 1) as nat,
        );
        lemma_fields_alike(a, b, room, "threadId"@, 5);
        lemma_alike_values(
            a.field("threadId"@, 5),
            b.field("threadId"@, 5),
            (room - 1) as nat,
        );
        lemma_fields_alike(a, b, room, "turnId"@, 6);
        lemma_alike_values(
            a.field("turnId"@, 6),
            b.field("turnId"@, 6),
            (room - 1) as nat,
        );
        lemma_fields_alike(a, b, room, "attempt"@, 7);
        lemma_alike_values(
            a.field("attempt"@, 7),
            b.field("attempt"@, 7),
            (room - 1) as nat,
        );
        lemma_fields_alike(a, b, room, "message"@, 8);
        lemma_alike_values(
            a.field("message"@, 8),
            b.field("message"@, 8),
            (room - 1) as nat,
        );
    }
}

proof fn lemma_same_settings(a: JsonView, b: JsonView, room: nat)
    requires
        same_content(a, b),
        fits(a, room),
    ensures
        settings_in(a) == settings_in(b),
{
    if room > 0 {
        lemma_members_alike(a, b, room, "enabled"@);
        lemma_alike_values(a.get("enabled"@), b.get("enabled"@), (room - 1) as nat);
        lemma_members_alike(a, b, room, "armed"@);
        lemma_alike_values(a.get("armed"@), b.get("armed"@), (room - 1) as nat);
        lemma_members_alike(a, b, room, "action"@);
        lemma_alike_values(a.get("action"@), b.get("action"@), (room - 1) as nat);
        lemma_members_alike(a, b, room, "primaryThresholdPercent"@);
        lemma_alike_values(a.get("primaryThresholdPercent"@), b.get("primaryThresholdPercent"@), (room - 1) as nat);
        lemma_members_alike(a, b, room, "secondaryThresholdPercent"@);
        lemma_alike_values(a.get("secondaryThresholdPercent"@), b.get("secondaryThresholdPercent"@), (room - 1) as nat);
        lemma_members_alike(a, b, room, "rearmAfterResetPercentLeft"@);
        lemma_alike_values(a.get("rearmAfterResetPercentLeft"@), b.get("rearmAfterResetPercentLeft"@), (room - 1) as nat);
        lemma_members_alike(a, b, room, "drainTimeoutMinutes"@);
        lemma_alike_values(a.get("drainTimeoutMinutes"@), b.get("drainTimeoutMinutes"@), (room - 1) as nat);
        lemma_members_alike(a, b, room, "resetGraceMinutes"@);
        lemma_alike_values(a.get("resetGraceMinutes"@), b.get("resetGraceMinutes"@), (room - 1) as nat);
        lemma_members_alike(a, b, room, "notifyWhenAvailable"@);
        lemma_alike_values(a.get("notifyWhenAvailable"@), b.get("notifyWhenAvailable"@), (room - 1) as nat);
    }
}


/// Whether every member of the document but the one at position `k` fits.
spec fn fits_but(a: JsonView, k: int, room: nat) -> bool {
    a matches JsonView::Object(entries) && 0 <= k < entries.len() && forall|i: int|
        0 <= i < entries.len() && i != k ==> fits((#[trigger] entries[i]).1, room)
}

proof fn lemma_others_alike(a: JsonView, b: JsonView, k: int, room: nat, name: Seq<char>)
    requires
        resembles(a, b),
        fits_but(a, k, room),
        a->Object_0[k].0 != name,
    ensures
        alike(a.get(name), b.get(name), room),
{
    let entries = a->Object_0;
    let others = b->Object_0;
    assert(b.get(name) == first_under(others, name));
    assert(a.get(name) == first_under(entries, name));
    lemma_under_has_position(entries, name);
    if let Some(member) = a.get(name) {
        let m = choose|m: int|
            0 <= m < entries.len() && (#[trigger] entries[m]).0 == name && entries[m].1 == member;
        what_resembles_a_fitting_one_has_its_content(member, b.get(name)->0, room);
    }
}

proof fn lemma_member_resembles(a: JsonView, b: JsonView, name: Seq<char>)
    requires
        resembles(a, b),
        a is Object,
    ensures
        match a.get(name) {
            Some(member) => b.get(name) matches Some(other) && resembles(member, other),
            None => b.get(name) is None,
        },
{
    assert(b.get(name) == first_under(b->Object_0, name));
}

/// Whether the credits are alike: both missing, or of the same content but that a number which
/// is no whole one of 64 bits may have become some other number.
pub open spec fn like_credits(a: Option<JsonView>, b: Option<JsonView>) -> bool {
    match (a, b) {
        (None, None) => true,
        (Some(x), Some(y)) => resembles(x, y),
        _ => false,
    }
}

/// Whether the two snapshots are the same, with credits that are alike.
pub open spec fn like_snapshot(a: Option<SnapshotView>, b: Option<SnapshotView>) -> bool {
    match (a, b) {
        (None, None) => true,
        (Some(x), Some(y)) => like_credits(x.credits, y.credits) && y == (SnapshotView {
            credits: y.credits,
            ..x
        }),
        _ => false,
    }
}

/// Whether the two accounts are the same, with credits that are alike.
pub open spec fn like_account(a: Option<KeptAccount>, b: Option<KeptAccount>) -> bool {
    match (a, b) {
        (None, None) => true,
        (Some(x), Some(y)) => like_snapshot(x.snapshot, y.snapshot) && y == (KeptAccount {
            snapshot: y.snapshot,
            ..x
        }),
        _ => false,
    }
}

/// Whether the two states are the same, with credits that are alike.
pub open spec fn like_state(a: KeptState, b: KeptState) -> bool {
    like_account(a.account, b.account) && b == (KeptState { account: b.account, ..a })
}

proof fn lemma_like_snapshot(snapshot: SnapshotView, b: JsonView, room: nat)
    requires
        room >= 2,
        resembles(snapshot_document(snapshot), b),
    ensures
        snapshot_in(b) is Some,
        like_snapshot(snapshot_without_null_credits(Some(snapshot)), snapshot_in(b)),
{
    let a = snapshot_document(snapshot);
    let less = (room - 1) as nat;
    snapshots_are_read_back(Some(snapshot));
    lemma_snapshot_members(snapshot, room);
    reveal_strlit("primary");
    reveal_strlit("secondary");
    reveal_strlit("credits");
    reveal_strlit("planType");
    reveal_strlit("rateLimitReachedType");
    reveal_strlit("observedAt");
    assert("primary"@[0] == 'p');
    assert("secondary"@.len() == 9);
    assert("credits"@.len() == 7 && "credits"@[0] == 'c');
    assert("planType"@.len() == 8);
    assert("rateLimitReachedType"@.len() == 20);
    assert("observedAt"@.len() == 10);
    lemma_others_alike(a, b, 2, less, "primary"@);
    lemma_others_alike(a, b, 2, less, "secondary"@);
    lemma_others_alike(a, b, 2, less, "planType"@);
    lemma_alike_values(a.get("planType"@), b.get("planType"@), less);
    lemma_others_alike(a, b, 2, less, "rateLimitReachedType"@);
    lemma_alike_values(a.get("rateLimitReachedType"@), b.get("rateLimitReachedType"@), less);
    lemma_others_alike(a, b, 2, less, "observedAt"@);
    lemma_alike_values(a.get("observedAt"@), b.get("observedAt"@), less);
    lemma_member_resembles(a, b, "credits"@);
    if let Some(window) = optional(a.get("primary"@)) {
        lemma_same_window(window, b.get("primary"@)->0, less);
    }
    if let Some(window) = optional(a.get("secondary"@)) {
        lemma_same_window(window, b.get("secondary"@)->0, less);
    }
}

proof fn lemma_kind_is_text(entry: ActivityView)
    ensures
        activity_document(entry).field("kind"@, 1) matches Some(kind) && kind is Text,
{
    reveal_strlit("id");
    reveal_strlit("kind");
    assert("id"@.len() == 2 && "kind"@.len() == 4);
    lemma_member_at(activity_document(entry)->Object_0, 1);
}

proof fn lemma_like_account(account: KeptAccount, b: JsonView, room: nat)
    requires
        room >= 3,
        resembles(account_document(account), b),
    ensures
        account_in(b) is Some,
        like_account(Some(account_without_null_credits(account)), account_in(b)),
{
    let a = account_document(account);
    let less = (room - 1) as nat;
    accounts_are_read_back(account);
    lemma_account_members(account, room);
    reveal_strlit("accountKey");
    reveal_strlit("phase");
    reveal_strlit("snapshot");
    reveal_strlit("associatedWorkspaceIds");
    reveal_strlit("localTurnRegistry");
    reveal_strlit("activityEntries");
    reveal_strlit("suspendedExternalEngines");
    reveal_strlit("monitorHealthy");
    reveal_strlit("lastError");
    reveal_strlit("updatedAt");
    reveal_strlit("fireAtOrAboveOnNextSnapshot");
    assert("accountKey"@.len() == 10);
    assert("phase"@.len() == 5);
    assert("snapshot"@.len() == 8);
    assert("associatedWorkspaceIds"@.len() == 22);
    assert("localTurnRegistry"@.len() == 17);
    assert("activityEntries"@.len() == 15);
    assert("suspendedExternalEngines"@.len() == 24);
    assert("monitorHealthy"@.len() == 14);
    assert("lastError"@.len() == 9 && "lastError"@[0] == 'l');
    assert("updatedAt"@.len() == 9 && "updatedAt"@[0] == 'u');
    assert("fireAtOrAboveOnNextSnapshot"@.len() == 27);
    lemma_others_alike(a, b, 2, less, "accountKey"@);
    lemma_alike_values(a.get("accountKey"@), b.get("accountKey"@), less);
    lemma_others_alike(a, b, 2, less, "phase"@);
    lemma_alike_values(a.get("phase"@), b.get("phase"@), less);
    lemma_others_alike(a, b, 2, less, "associatedWorkspaceIds"@);
    lemma_alike_values(a.get("associatedWorkspaceIds"@), b.get("associatedWorkspaceIds"@), less);
    lemma_others_alike(a, b, 2, less, "localTurnRegistry"@);
    lemma_alike_values(a.get("localTurnRegistry"@), b.get("localTurnRegistry"@), less);
    lemma_others_alike(a, b, 2, less, "activityEntries"@);
    lemma_alike_values(a.get("activityEntries"@), b.get("activityEntries"@), less);
    lemma_others_alike(a, b, 2, less, "suspendedExternalEngines"@);
    lemma_alike_values(a.get("suspendedExternalEngines"@), b.get("suspendedExternalEngines"@), less);
    lemma_others_alike(a, b, 2, less, "monitorHealthy"@);
    lemma_alike_values(a.get("monitorHealthy"@), b.get("monitorHealthy"@), less);
    lemma_others_alike(a, b, 2, less, "lastError"@);
    lemma_alike_values(a.get("lastError"@), b.get("lastError"@), less);
    lemma_others_alike(a, b, 2, less, "updatedAt"@);
    lemma_alike_values(a.get("updatedAt"@), b.get("updatedAt"@), less);
    lemma_others_alike(a, b, 2, less, "fireAtOrAboveOnNextSnapshot"@);
    lemma_alike_values(a.get("fireAtOrAboveOnNextSnapshot"@), b.get("fireAtOrAboveOnNextSnapshot"@), less);
    lemma_member_at(a->Object_0, 2);
    lemma_member_resembles(a, b, "snapshot"@);
    if let Some(snapshot) = account.snapshot {
        lemma_like_snapshot(snapshot, b.get("snapshot"@)->0, less);
    }
    lemma_member_at(a->Object_0, 3);
    assert forall|i: int| 0 <= i < a.get("associatedWorkspaceIds"@)->0->Array_0.len() implies text_in(
        #[trigger] a.get("associatedWorkspaceIds"@)->0->Array_0[i],
    ) == text_in(b.get("associatedWorkspaceIds"@)->0->Array_0[i]) by {
        let item = a.get("associatedWorkspaceIds"@)->0->Array_0[i];
        let other = b.get("associatedWorkspaceIds"@)->0->Array_0[i];
        assert(same_content(item, other));
        assert(fits(item, (less - 1) as nat));
    }
    lemma_alike_lists(
        a.get("associatedWorkspaceIds"@),
        b.get("associatedWorkspaceIds"@),
        less,
        |item: JsonView| text_in(item),
    );
    lemma_member_at(a->Object_0, 4);
    assert forall|i: int| 0 <= i < a.get("localTurnRegistry"@)->0->Array_0.len() implies turn_in(
        #[trigger] a.get("localTurnRegistry"@)->0->Array_0[i],
    ) == turn_in(b.get("localTurnRegistry"@)->0->Array_0[i]) by {
        let item = a.get("localTurnRegistry"@)->0->Array_0[i];
        let other = b.get("localTurnRegistry"@)->0->Array_0[i];
        assert(same_content(item, other));
        assert(fits(item, (less - 1) as nat));
        lemma_same_turn(item, other, (less - 1) as nat);
    }
    lemma_alike_lists(
        a.get("localTurnRegistry"@),
        b.get("localTurnRegistry"@),
        less,
        |item: JsonView| turn_in(item),
    );
    lemma_member_at(a->Object_0, 5);
    assert forall|i: int| 0 <= i < a.get("activityEntries"@)->0->Array_0.len() implies activity_in(
        #[trigger] a.get("activityEntries"@)->0->Array_0[i],
    ) == activity_in(b.get("activityEntries"@)->0->Array_0[i]) by {
        let item = a.get("activityEntries"@)->0->Array_0[i];
        let other = b.get("activityEntries"@)->0->Array_0[i];
        assert(same_content(item, other));
        assert(fits(item, (less - 1) as nat));
        assert(item == activity_document(account.activity_entries[i]));
        lemma_kind_is_text(account.activity_entries[i]);
        lemma_same_activity(item, other, (less - 1) as nat);
    }
    lemma_alike_lists(
        a.get("activityEntries"@),
        b.get("activityEntries"@),
        less,
        |item: JsonView| activity_in(item),
    );
    lemma_member_at(a->Object_0, 6);
    assert forall|i: int| 0 <= i < a.get("suspendedExternalEngines"@)->0->Array_0.len() implies engine_in(
        #[trigger] a.get("suspendedExternalEngines"@)->0->Array_0[i],
    ) == engine_in(b.get("suspendedExternalEngines"@)->0->Array_0[i]) by {
        let item = a.get("suspendedExternalEngines"@)->0->Array_0[i];
        let other = b.get("suspendedExternalEngines"@)->0->Array_0[i];
        assert(same_content(item, other));
        assert(fits(item, (less - 1) as nat));
        lemma_same_engine(item, other, (less - 1) as nat);
    }
    lemma_alike_lists(
        a.get("suspendedExternalEngines"@),
        b.get("suspendedExternalEngines"@),
        less,
        |item: JsonView| engine_in(item),
    );
}

/// What resembles the document of a state holds a state that is the same, with credits that are
/// alike.
pub proof fn resembling_documents_hold_the_state(state: KeptState, b: JsonView)
    requires
        resembles(state_document(state), b),
    ensures
        state_in(b) matches Some(held) && like_state(without_null_credits(state), held),
{
    let a = state_document(state);
    let less = 126nat;
    states_are_read_back(state);
    lemma_state_members(state, 127);
    reveal_strlit("schemaVersion");
    reveal_strlit("lifecycleGeneration");
    reveal_strlit("nextOperationId");
    reveal_strlit("account");
    reveal_strlit("effectiveSettings");
    assert("schemaVersion"@.len() == 13);
    assert("lifecycleGeneration"@.len() == 19);
    assert("nextOperationId"@.len() == 15);
    assert("account"@.len() == 7);
    assert("effectiveSettings"@.len() == 17);
    lemma_others_alike(a, b, 3, less, "schemaVersion"@);
    lemma_alike_values(a.get("schemaVersion"@), b.get("schemaVersion"@), less);
    lemma_others_alike(a, b, 3, less, "lifecycleGeneration"@);
    lemma_alike_values(a.get("lifecycleGeneration"@), b.get("lifecycleGeneration"@), less);
    lemma_others_alike(a, b, 3, less, "nextOperationId"@);
    lemma_alike_values(a.get("nextOperationId"@), b.get("nextOperationId"@), less);
    lemma_others_alike(a, b, 3, less, "effectiveSettings"@);
    lemma_alike_values(a.get("effectiveSettings"@), b.get("effectiveSettings"@), less);
    lemma_member_at(a->Object_0, 3);
    lemma_member_resembles(a, b, "account"@);
    if let Some(account) = state.account {
        lemma_like_account(account, b.get("account"@)->0, less);
    }
    if let Some(settings) = optional(a.get("effectiveSettings"@)) {
        lemma_same_settings(settings, b.get("effectiveSettings"@)->0, less);
    }
}

proof fn lemma_turn_fits(turn: TurnView, room: nat)
    requires
        room >= 1,
    ensures
        fits(turn_document(turn), room),
{
    let entries = turn_document(turn)->Object_0;
    let less = (room - 1) as nat;
    assert forall|i: int| 0 <= i < entries.len() implies fits((#[trigger] entries[i]).1, less) by {
        assert(entries.len() == 4);
        if i == 0 {
        } else if i == 1 {
        } else if i == 2 {
        } else if i == 3 {
        }
    }
}

proof fn lemma_engine_fits(engine: EngineView, room: nat)
    requires
        room >= 1,
    ensures
        fits(engine_document(engine), room),
{
    let entries = engine_document(engine)->Object_0;
    let less = (room - 1) as nat;
    assert forall|i: int| 0 <= i < entries.len() implies fits((#[trigger] entries[i]).1, less) by {
        assert(entries.len() == 4);
        if i == 0 {
        } else if i == 1 {
        } else if i == 2 {
        } else if i == 3 {
        }
    }
}

proof fn lemma_window_fits(window: RateLimitWindow, room: nat)
    requires
        room >= 1,
    ensures
        fits(window_document(window), room),
{
    let entries = window_document(window)->Object_0;
    let less = (room - 1) as nat;
    assert forall|i: int| 0 <= i < entries.len() implies fits((#[trigger] entries[i]).1, less) by {
        assert(entries.len() == 3);
        if i == 0 {
        } else if i == 1 {
        } else if i == 2 {
        }
    }
}

proof fn lemma_activity_fits(entry: ActivityView, room: nat)
    requires
        room >= 1,
    ensures
        fits(activity_document(entry), room),
{
    let entries = activity_document(entry)->Object_0;
    let less = (room - 1) as nat;
    assert forall|i: int| 0 <= i < entries.len() implies fits((#[trigger] entries[i]).1, less) by {
        assert(entries.len() == 9);
        if i == 0 {
        } else if i == 1 {
        } else if i == 2 {
        } else if i == 3 {
        } else if i == 4 {
        } else if i == 5 {
        } else if i == 6 {
        } else if i == 7 {
        } else if i == 8 {
        }
    }
}

proof fn lemma_settings_fits(settings: QuotaGuardSettings, room: nat)
    requires
        room >= 1,
    ensures
        fits(settings_document(settings), room),
{
    let entries = settings_document(settings)->Object_0;
    let less = (room - 1) as nat;
    assert forall|i: int| 0 <= i < entries.len() implies fits((#[trigger] entries[i]).1, less) by {
        assert(entries.len() == 9);
        if i == 0 {
        } else if i == 1 {
        } else if i == 2 {
        } else if i == 3 {
        } else if i == 4 {
        } else if i == 5 {
        } else if i == 6 {
        } else if i == 7 {
        } else if i == 8 {
        }
    }
}

proof fn lemma_snapshot_members(snapshot: SnapshotView, room: nat)
    requires
        room >= 2,
    ensures
        fits_but(snapshot_document(snapshot), 2, (room - 1) as nat),
{
    let entries = snapshot_document(snapshot)->Object_0;
    let less = (room - 1) as nat;
    assert forall|i: int| 0 <= i < entries.len() && i != 2 implies fits((#[trigger] entries[i]).1, less) by {
        assert(entries.len() == 6);
        if i == 0 {
            if let Some(window) = snapshot.primary { lemma_window_fits(window, less); }
        } else if i == 1 {
            if let Some(window) = snapshot.secondary { lemma_window_fits(window, less); }
        } else if i == 2 {
        } else if i == 3 {
        } else if i == 4 {
        } else if i == 5 {
        }
    }
}

proof fn lemma_account_members(account: KeptAccount, room: nat)
    requires
        room >= 3,
    ensures
        fits_but(account_document(account), 2, (room - 1) as nat),
{
    let entries = account_document(account)->Object_0;
    let less = (room - 1) as nat;
    let associated_workspace_ids = account.associated_workspace_ids.map_values(|s: Seq<char>| text_document(s));
    assert(fits(JsonView::Array(associated_workspace_ids), less)) by {
        assert forall|j: int| 0 <= j < associated_workspace_ids.len() implies fits(
            #[trigger] associated_workspace_ids[j],
            (less - 1) as nat,
        ) by {

        }
    }
    let local_turn_registry = account.local_turn_registry.map_values(|turn: TurnView| turn_document(turn));
    assert(fits(JsonView::Array(local_turn_registry), less)) by {
        assert forall|j: int| 0 <= j < local_turn_registry.len() implies fits(
            #[trigger] local_turn_registry[j],
            (less - 1) as nat,
        ) by {
            lemma_turn_fits(account.local_turn_registry[j], (less - 1) as nat);
        }
    }
    let activity_entries = account.activity_entries.map_values(|entry: ActivityView| activity_document(entry));
    assert(fits(JsonView::Array(activity_entries), less)) by {
        assert forall|j: int| 0 <= j < activity_entries.len() implies fits(
            #[trigger] activity_entries[j],
            (less - 1) as nat,
        ) by {
            lemma_activity_fits(account.activity_entries[j], (less - 1) as nat);
        }
    }
    let suspended_external_engines = account.suspended_external_engines.map_values(|engine: EngineView| engine_document(engine));
    assert(fits(JsonView::Array(suspended_external_engines), less)) by {
        assert forall|j: int| 0 <= j < suspended_external_engines.len() implies fits(
            #[trigger] suspended_external_engines[j],
            (less - 1) as nat,
        ) by {
            lemma_engine_fits(account.suspended_external_engines[j], (less - 1) as nat);
        }
    }
    assert forall|i: int| 0 <= i < entries.len() && i != 2 implies fits((#[trigger] entries[i]).1, less) by {
        assert(entries.len() == 11);
        if i == 0 {
        } else if i == 1 {
        } else if i == 2 {
        } else if i == 3 {
        } else if i == 4 {
        } else if i == 5 {
        } else if i == 6 {
        } else if i == 7 {
        } else if i == 8 {
        } else if i == 9 {
        } else if i == 10 {
        }
    }
}

proof fn lemma_state_members(state: KeptState, room: nat)
    requires
        room >= 4,
    ensures
        fits_but(state_document(state), 3, (room - 1) as nat),
{
    let entries = state_document(state)->Object_0;
    let less = (room - 1) as nat;
    assert forall|i: int| 0 <= i < entries.len() && i != 3 implies fits((#[trigger] entries[i]).1, less) by {
        assert(entries.len() == 5);
        if i == 0 {
        } else if i == 1 {
        } else if i == 2 {
        } else if i == 3 {
        } else if i == 4 {
            if let Some(settings) = state.effective_settings { lemma_settings_fits(settings, less); }
        }
    }
}

proof fn lemma_nests_but(a: JsonView, k: int, room: nat)
    requires
        room > 0,
        fits_but(a, k, (room - 1) as nat),
        nests(a->Object_0[k].1, (room - 1) as nat),
    ensures
        nests(a, room),
{
    let entries = a->Object_0;
    assert forall|i: int| 0 <= i < entries.len() implies nests(
        (#[trigger] entries[i]).1,
        (room - 1) as nat,
    ) by {
        if i != k {
            what_fits_nests(entries[i].1, (room - 1) as nat);
        }
    }
}

/// The credits that a state holds.
pub open spec fn credits_of(state: KeptState) -> Option<JsonView> {
    match state.account {
        Some(account) => match account.snapshot {
            Some(snapshot) => snapshot.credits,
            None => None,
        },
        None => None,
    }
}

proof fn lemma_state_nests(state: KeptState)
    requires
        credits_of(state) matches Some(credits) ==> nests(credits, 124),
    ensures
        nests(state_document(state), 127),
{
    if let Some(account) = state.account {
        if let Some(snapshot) = account.snapshot {
            lemma_snapshot_members(snapshot, 125);
            lemma_nests_but(snapshot_document(snapshot), 2, 125);
        }
        lemma_account_members(account, 126);
        lemma_nests_but(account_document(account), 2, 126);
    }
    lemma_state_members(state, 127);
    lemma_nests_but(state_document(state), 3, 127);
}

/// Whether the state is one that is loaded again: of a version that is taken, with credits that
/// do not nest too deep.
pub open spec fn loads_again(state: KeptState) -> bool {
    &&& state.schema_version <= STATE_SCHEMA_VERSION
    &&& credits_of(state) matches Some(credits) ==> nests(credits, 124)
}

/// A text that was written of a state is one from which the state is loaded again, but for what
/// is not kept: credits that are null come back as none, and in other credits a number which is
/// no whole one of 64 bits comes back as some number.
pub proof fn written_states_are_loaded_again(state: KeptState, text: Seq<char>)
    requires
        loads_again(state),
        written(state_document(state), text, true),
    ensures
        state_in_text(document_in(text)) matches Ok(loaded) && like_state(
            without_null_credits(state),
            loaded,
        ),
{
    let document = state_document(state);
    lemma_state_nests(state);
    written_documents_are_resembled(document, text, true);
    let read = json_in(text)->Ok_0;
    ordering_keeps_the_resemblance(document, read);
    resembling_documents_hold_the_state(state, ordered(read));
    retired_members_make_no_difference(ordered(read));
}

/// Credits that hold no number but whole ones come back with the content that was written.
pub proof fn whole_credits_are_loaded_unchanged(state: KeptState, loaded: KeptState)
    requires
        like_state(without_null_credits(state), loaded),
        credits_of(state) matches Some(credits) ==> fits(credits, 124),
    ensures
        match (credits_of(without_null_credits(state)), credits_of(loaded)) {
            (None, None) => true,
            (Some(credits), Some(others)) => same_content(credits, others),
            _ => false,
        },
{
    if let (Some(credits), Some(others)) = (
        credits_of(without_null_credits(state)),
        credits_of(loaded),
    ) {
        what_resembles_a_fitting_one_has_its_content(credits, others, 124);
    }
}

/// What is kept of a state is loaded as valid, whatever the backup holds: `read` is what is read
/// from a text that was written of it.
pub proof fn kept_states_are_loaded_as_valid(
    state: RuntimeView,
    text: Seq<char>,
    read: Option<RuntimeView>,
    backup: Option<RuntimeView>,
    state_exists: bool,
    backup_exists: bool,
    quarantined_to: Seq<char>,
)
    requires
        loads_again(kept_state(state)),
        written(state_document(kept_state(state)), text, true),
        match read {
            Some(found) => state_in_text(document_in(text)) == Ok::<KeptState, StateFault>(
                kept_state(found),
            ),
            None => state_in_text(document_in(text)) is Err,
        },
    ensures
        loaded(read, backup, state_exists, backup_exists, quarantined_to) matches LoadView::Valid(
            found,
        ) && like_state(without_null_credits(kept_state(state)), kept_state(found)),
{
    written_states_are_loaded_again(kept_state(state), text);
}

/// The text in which a state is kept.
pub fn persisted_text(state: &QuotaGuardRuntimeState) -> (r: Result<String, String>)
    ensures
        r is Ok <==> writable(state_document(kept_state(state@))),
        r matches Ok(text) ==> written(state_document(kept_state(state@)), text@, true),
        r matches Err(message) ==> message@ == UNWRITABLE_NUMBER@,
        r matches Ok(text) ==> loads_again(kept_state(state@)) ==> (state_in_text(
            document_in(text@),
        ) matches Ok(loaded) && like_state(without_null_credits(kept_state(state@)), loaded)),
{
    let document = write_state(state);
    let r = write_json_pretty(&document);
    proof {
        let kept = kept_state(state@);
        if loads_again(kept) && r is Ok {
            written_states_are_loaded_again(kept, r->Ok_0@);
        }
    }
    r
}

} // verus!
