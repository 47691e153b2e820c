//! What is shown of the limiter, and which settings it accepts, stated on phases, numbers and
//! texts.

use crate::gate::{AdmissionReason, GateView, ProcessPolicy};
use crate::model::{
    interrupts_by_turn, kept_activity, snapshot_view, AccountView, ActivityView, PendingInterrupt,
    QuotaGuardPhase, RuntimeView, SnapshotView, TurnKey,
};
use crate::notifications::{breach_body, quoted};
use crate::public_state::{
    blocked_in_phase, concerned_turns, distinct_turns, shown_activity, shown_admissions,
    shown_state, spec_phase_name, spec_policy_name, Binding,
};
use crate::request::spec_reason_name;
use crate::settings::{
    backend_incompatible, enables, remote_backend_changed, settings_error, AppSettings, BackendMode,
    QuotaAction, QuotaGuardSettings,
};
use crate::text::{decimal, signed_decimal};
use vstd::prelude::*;

verus! {

/// Thresholds are shares of the whole, draining takes from a minute to a day, and the grace after a
/// reset up to a day. The first setting that is out of its range is named.
pub proof fn settings_are_held_to_their_ranges(guard: QuotaGuardSettings)
    ensures
        ({
            let shares = guard.primary_threshold_percent <= 100 && guard.secondary_threshold_percent
                <= 100;
            let drain = 1 <= guard.drain_timeout_minutes && guard.drain_timeout_minutes <= 1440;
            let grace = guard.reset_grace_minutes <= 1440;
            &&& settings_error(guard) is None <==> shares && drain && grace
            &&& !shares ==> settings_error(guard) == Some("QUOTA_GUARD_INVALID_THRESHOLD_PERCENT"@)
            &&& shares && !drain ==> settings_error(guard) == Some(
                "QUOTA_GUARD_INVALID_DRAIN_TIMEOUT_MINUTES"@,
            )
            &&& shares && drain && !grace ==> settings_error(guard) == Some(
                "QUOTA_GUARD_INVALID_RESET_GRACE_MINUTES"@,
            )
        }),
{
}

/// Settings that are left alone have the limiter off, armed, and only notifying, at nine tenths of
/// either window.
pub proof fn settings_that_are_left_alone_notify_at_nine_tenths()
    ensures
        ({
            let settings = QuotaGuardSettings::spec_default();
            &&& !settings.enabled
            &&& settings.armed
            &&& settings.action == QuotaAction::NotifyOnly
            &&& settings.primary_threshold_percent == 90
            &&& settings.secondary_threshold_percent == 90
            &&& settings.rearm_after_reset_percent_left is None
            &&& settings.drain_timeout_minutes == 30
            &&& settings.reset_grace_minutes == 5
            &&& settings.notify_when_available
            &&& settings_error(settings) is None
        }),
{
}

/// Only a limiter that is on and works through a remote backend is incompatible.
pub proof fn a_limiter_works_locally(settings: AppSettings)
    ensures
        settings.backend_mode == BackendMode::Local ==> !backend_incompatible(settings),
        !settings.quota_guard.enabled ==> !backend_incompatible(settings),
        settings.quota_guard.enabled && settings.backend_mode == BackendMode::Remote
            ==> backend_incompatible(settings),
{
}

/// The remote backend is made anew where its mode, its host or its token changes, and is kept where
/// none of them does.
pub proof fn a_changed_backend_is_made_anew(previous: AppSettings, updated: AppSettings)
    ensures
        previous.backend_mode != updated.backend_mode ==> remote_backend_changed(previous, updated),
        previous.remote_backend_host@ != updated.remote_backend_host@ ==> remote_backend_changed(
            previous,
            updated,
        ),
        previous.remote_backend_token is Some != updated.remote_backend_token is Some
            ==> remote_backend_changed(previous, updated),
        previous.remote_backend_token is Some && updated.remote_backend_token is Some
            && previous.remote_backend_token->0@ != updated.remote_backend_token->0@
            ==> remote_backend_changed(previous, updated),
        previous.backend_mode == updated.backend_mode && previous.remote_backend_provider
            == updated.remote_backend_provider && previous.remote_backend_host
            == updated.remote_backend_host && previous.remote_backend_token
            == updated.remote_backend_token ==> !remote_backend_changed(previous, updated),
{
}

/// An update turns the limiter on exactly where it was off and is asked for.
pub proof fn an_update_turns_on_what_was_off(previous: AppSettings, requested: AppSettings)
    ensures
        previous.quota_guard.enabled ==> !enables(previous, requested),
        !requested.quota_guard.enabled ==> !enables(previous, requested),
        !previous.quota_guard.enabled && requested.quota_guard.enabled ==> enables(
            previous,
            requested,
        ),
{
}

/// A notice of a breach names the window, what is left of it, the floor and the reset; of a window
/// that is used up nothing is left.
pub proof fn a_breach_tells_what_is_left(window: Seq<char>, used: u8, threshold: u8, reset: Seq<char>)
    ensures
        used <= 100 && threshold <= 100 ==> breach_body(window, used, threshold, reset) == window
            + ": "@ + decimal((100 - used) as nat) + "% left (floor "@ + decimal(
            (100 - threshold) as nat,
        ) + "%). Resets "@ + reset + "."@,
        used > 100 ==> breach_body(window, used, threshold, reset) == breach_body(
            window,
            100,
            threshold,
            reset,
        ),
        threshold > 100 ==> breach_body(window, used, threshold, reset) == breach_body(
            window,
            used,
            100,
            reset,
        ),
{
}

/// In a quoted text a backslash stands before each quotation mark and each backslash, and before
/// nothing else.
pub proof fn marks_are_escaped_where_a_text_is_quoted(text: Seq<char>, c: char)
    ensures
        quoted(Seq::<char>::empty()) == Seq::<char>::empty(),
        c == '"' || c == '\\' ==> quoted(text.push(c)) == quoted(text) + seq!['\\', c],
        c != '"' && c != '\\' ==> quoted(text.push(c)) == quoted(text) + seq![c],
{
    assert(text.push(c).drop_last() == text);
}

/// Phases, policies and reasons are told by their names.
pub proof fn phases_policies_and_reasons_have_their_names()
    ensures
        spec_phase_name(QuotaGuardPhase::Disabled) == "disabled"@,
        spec_phase_name(QuotaGuardPhase::Monitoring) == "monitoring"@,
        spec_phase_name(QuotaGuardPhase::Tripped) == "tripped"@,
        spec_phase_name(QuotaGuardPhase::InterventionRequired) == "interventionRequired"@,
        spec_policy_name(ProcessPolicy::DisabledOpen) == "disabledOpen"@,
        spec_policy_name(ProcessPolicy::EnabledClosed) == "enabledClosed"@,
        spec_policy_name(ProcessPolicy::EnabledOpen) == "enabledOpen"@,
        spec_reason_name(AdmissionReason::Open) == "open"@,
        spec_reason_name(AdmissionReason::GuardDisabled) == "guardDisabled"@,
        spec_reason_name(AdmissionReason::ProcessClosed) == "processClosed"@,
        spec_reason_name(AdmissionReason::EpochUnverified) == "epochUnverified"@,
        spec_reason_name(AdmissionReason::WorkspaceUnbound) == "workspaceUnbound"@,
{
}

/// A refusal names the phase and, where it is known, when the quota is looked at again.
pub proof fn a_refusal_names_the_phase(phase: QuotaGuardPhase, time: i64)
    ensures
        blocked_in_phase(phase, Some(time)) == "QUOTA_GUARD_BLOCKED"@ + "|state="@
            + spec_phase_name(phase) + "|verifyAt="@ + signed_decimal(time as int),
        blocked_in_phase(phase, None) == "QUOTA_GUARD_BLOCKED"@ + "|state="@ + spec_phase_name(
            phase,
        ) + "|verifyAt="@,
{
}

/// Why a workspace is admitted or not: the limiter is off; or closed; or open, and the workspace
/// verified, not verified yet, or not bound at all.
pub proof fn admissions_have_their_reasons(
    gate: GateView,
    epoch: Seq<char>,
    workspace_id: Seq<char>,
)
    ensures
        ({
            let key = (epoch, workspace_id);
            let status = gate.status(Some(epoch), workspace_id);
            let unbound = gate.status(None, workspace_id);
            let open = gate.policy == ProcessPolicy::EnabledOpen;
            &&& gate.policy == ProcessPolicy::DisabledOpen ==> status.open && status.reason
                == AdmissionReason::GuardDisabled && unbound == status
            &&& gate.policy == ProcessPolicy::EnabledClosed ==> !status.open && status.reason
                == AdmissionReason::ProcessClosed && unbound == status
            &&& open && gate.permits.dom().contains(key) && gate.permits[key] ==> status.open
                && status.reason == AdmissionReason::Open
            &&& open && gate.permits.dom().contains(key) && !gate.permits[key] ==> !status.open
                && status.reason == AdmissionReason::EpochUnverified
            &&& open && !gate.permits.dom().contains(key) ==> !status.open && status.reason
                == AdmissionReason::WorkspaceUnbound
            &&& open ==> !unbound.open && unbound.reason == AdmissionReason::WorkspaceUnbound
        }),
{
}

/// A request that is admitted is counted, and one that ends is counted down, once; nothing else
/// changes.
pub proof fn requests_are_counted_up_and_down(gate: GateView)
    ensures
        gate.admissions < usize::MAX ==> gate.admitted() == (GateView {
            admissions: (gate.admissions + 1) as usize,
            ..gate
        }),
        gate.admissions > 0 ==> gate.released() == (GateView {
            admissions: (gate.admissions - 1) as usize,
            ..gate
        }),
        gate.admissions == 0 ==> gate.released() == gate,
        gate.ended(true) == gate,
        gate.ended(false) == gate.released(),
{
}

/// The policies have their codes; any other code means that nothing is admitted.
pub proof fn unknown_codes_close(value: u8)
    ensures
        ProcessPolicy::of_code(0) == ProcessPolicy::DisabledOpen,
        ProcessPolicy::of_code(1) == ProcessPolicy::EnabledClosed,
        ProcessPolicy::of_code(2) == ProcessPolicy::EnabledOpen,
        value > 2 ==> ProcessPolicy::of_code(value) == ProcessPolicy::EnabledClosed,
        ProcessPolicy::DisabledOpen.code() == 0,
        ProcessPolicy::EnabledClosed.code() == 1,
        ProcessPolicy::EnabledOpen.code() == 2,
{
}

/// Each workspace that is configured or bound is shown, with the session that it is bound to and
/// whether it is admitted there; no other is.
pub proof fn configured_and_bound_workspaces_are_shown(
    gate: GateView,
    configured: Seq<Seq<char>>,
    bindings: Map<Seq<char>, Binding>,
    workspace_id: Seq<char>,
)
    ensures
        ({
            let shown = shown_admissions(gate, configured, bindings);
            let bound = bindings.dom().contains(workspace_id);
            let epoch = bindings[workspace_id].session_epoch@;
            let there = configured.contains(workspace_id) || bound;
            &&& shown.dom().contains(workspace_id) <==> there
            &&& bound ==> shown[workspace_id].session_epoch == Some(epoch)
                && shown[workspace_id].open == gate.status(Some(epoch), workspace_id).open
                && shown[workspace_id].reason == spec_reason_name(
                gate.status(Some(epoch), workspace_id).reason,
            )
            &&& there && !bound ==> shown[workspace_id].session_epoch is None
                && shown[workspace_id].open == gate.status(None, workspace_id).open
                && shown[workspace_id].reason == spec_reason_name(
                gate.status(None, workspace_id).reason,
            )
        }),
{
}

/// An entry of the activity is shown as it is, with the number of its operation in digits.
pub proof fn activity_is_shown_as_it_is(entry: ActivityView)
    ensures
        ({
            let shown = shown_activity(entry);
            &&& shown.id == entry.id
            &&& shown.kind == entry.kind
            &&& shown.timestamp == entry.timestamp
            &&& entry.operation_id is Some ==> shown.operation_id == Some(
                decimal(entry.operation_id->0 as nat),
            )
            &&& entry.operation_id is None ==> shown.operation_id is None
            &&& shown.workspace_id == entry.workspace_id
            &&& shown.thread_id == entry.thread_id
            &&& shown.turn_id == entry.turn_id
            &&& shown.attempt == entry.attempt
            &&& shown.message == entry.message
        }),
{
}

/// Without an account the limiter is shown as off, with nothing read and all well.
pub proof fn without_an_account_nothing_is_shown(
    runtime: RuntimeView,
    gate: GateView,
    configured: Seq<Seq<char>>,
    bindings: Map<Seq<char>, Binding>,
    now_ms: i64,
)
    requires
        runtime.account is None,
    ensures
        ({
            let shown = shown_state(runtime, gate, configured, bindings, now_ms);
            &&& shown.account_key is None
            &&& shown.account_label is None
            &&& shown.phase == QuotaGuardPhase::Disabled
            &&& shown.snapshot is None
            &&& !shown.snapshot_fresh
            &&& shown.breached_windows.len() == 0
            &&& shown.affected_turns.len() == 0
            &&& shown.drain_deadline is None
            &&& shown.verify_at is None
            &&& shown.monitor_healthy
            &&& shown.last_error is None
            &&& shown.activity.len() == 0
            &&& shown.admission_by_workspace == shown_admissions(gate, configured, bindings)
        }),
{
}

/// An account is shown with its key, its phase, what was read last, the windows that are breached,
/// its health, its last error and its activity. What was read is fresh for ten minutes.
pub proof fn an_account_is_shown_as_it_stands(
    runtime: RuntimeView,
    account: AccountView,
    gate: GateView,
    configured: Seq<Seq<char>>,
    bindings: Map<Seq<char>, Binding>,
    now_ms: i64,
)
    requires
        runtime.account == Some(account),
    ensures
        ({
            let shown = shown_state(runtime, gate, configured, bindings, now_ms);
            &&& shown.account_key == Some(account.account_key@)
            &&& shown.account_label is None
            &&& shown.phase == account.phase
            &&& shown.snapshot == snapshot_view(account.snapshot)
            &&& account.snapshot is None ==> !shown.snapshot_fresh
            &&& account.snapshot is Some ==> (shown.snapshot_fresh <==> account.snapshot->0.observed_at
                <= now_ms && now_ms - account.snapshot->0.observed_at <= 10 * 60 * 1000)
            &&& shown.breached_windows == account.breached_windows
            &&& shown.drain_deadline is None
            &&& shown.verify_at is None
            &&& shown.monitor_healthy == account.monitor_healthy
            &&& shown.last_error == account.last_error
            &&& shown.activity.len() == account.activity_entries.len()
            &&& forall|i: int|
                0 <= i < shown.activity.len() ==> #[trigger] shown.activity[i] == shown_activity(
                    account.activity_entries[i],
                )
            &&& shown.admission_by_workspace == shown_admissions(gate, configured, bindings)
        }),
{
}

proof fn lemma_shown_turn(turns: Seq<TurnKey>, i: int)
    requires
        0 <= i < turns.len(),
    ensures
        exists|k: int|
            0 <= k < distinct_turns(turns).len() && (#[trigger] distinct_turns(turns)[k]).id()
                == turns[i].id(),
{
    crate::public_state::each_turn_is_shown_once(turns);
    assert(crate::model::among(distinct_turns(turns), turns[i]));
}

proof fn lemma_shown_from(turns: Seq<TurnKey>, k: int)
    requires
        0 <= k < distinct_turns(turns).len(),
    ensures
        turns.contains(distinct_turns(turns)[k]),
    decreases turns.len(),
{
    if turns.len() > 0 {
        let rest = distinct_turns(turns.drop_last());
        if k < rest.len() {
            lemma_shown_from(turns.drop_last(), k);
            assert(distinct_turns(turns)[k] == rest[k]);
            let i = choose|i: int|
                0 <= i < turns.drop_last().len() && turns.drop_last()[i] == rest[k];
            assert(turns[i] == rest[k]);
        } else {
            assert(turns[turns.len() - 1] == turns.last());
        }
    }
}

/// The turns that an account owns and those that are being interrupted are concerned, and no others
/// are; each is shown by its workspace, its thread and its own name.
pub proof fn owned_and_interrupted_turns_are_concerned(account: AccountView, turn: TurnKey)
    ensures
        concerned_turns(account).contains(turn) <==> (account.local_turn_registry.contains(turn)
            || exists|i: int|
            0 <= i < account.pending_interrupt_index.len() && (
            #[trigger] account.pending_interrupt_index[i]).turn == turn),
        forall|i: int|
            0 <= i < concerned_turns(account).len() ==> exists|k: int|
                0 <= k < distinct_turns(concerned_turns(account)).len() && (
                #[trigger] distinct_turns(concerned_turns(account))[k]).id() == (
                #[trigger] concerned_turns(account)[i]).id(),
        forall|k: int|
            0 <= k < distinct_turns(concerned_turns(account)).len() ==> concerned_turns(
                account,
            ).contains(#[trigger] distinct_turns(concerned_turns(account))[k]),
{
    let owned = account.local_turn_registry;
    let pending = account.pending_interrupt_index;
    let all = concerned_turns(account);
    if owned.contains(turn) {
        let i = choose|i: int| 0 <= i < owned.len() && owned[i] == turn;
        assert(all[i] == turn);
    }
    if exists|i: int| 0 <= i < pending.len() && (#[trigger] pending[i]).turn == turn {
        let i = choose|i: int| 0 <= i < pending.len() && (#[trigger] pending[i]).turn == turn;
        assert(all[owned.len() + i] == turn);
    }
    if all.contains(turn) {
        let i = choose|i: int| 0 <= i < all.len() && all[i] == turn;
        if i < owned.len() {
            assert(owned[i] == turn);
        } else {
            assert(pending[i - owned.len()].turn == turn);
        }
    }
    assert forall|i: int| 0 <= i < all.len() implies exists|k: int|
        0 <= k < distinct_turns(all).len() && (#[trigger] distinct_turns(all)[k]).id() == (
        #[trigger] all[i]).id() by {
        lemma_shown_turn(all, i);
    }
    assert forall|k: int| 0 <= k < distinct_turns(all).len() implies all.contains(
        #[trigger] distinct_turns(all)[k],
    ) by {
        lemma_shown_from(all, k);
    }
}

/// What is shown of the turns is those that are concerned, each by its three names.
pub proof fn turns_are_shown_by_their_names(
    runtime: RuntimeView,
    account: AccountView,
    gate: GateView,
    configured: Seq<Seq<char>>,
    bindings: Map<Seq<char>, Binding>,
    now_ms: i64,
)
    requires
        runtime.account == Some(account),
    ensures
        ({
            let shown = shown_state(runtime, gate, configured, bindings, now_ms).affected_turns;
            let turns = distinct_turns(concerned_turns(account));
            &&& shown.len() == turns.len()
            &&& forall|i: int|
                0 <= i < shown.len() ==> #[trigger] shown[i] == (
                    turns[i].workspace_id@,
                    turns[i].thread_id@,
                    turns[i].turn_id@,
                )
        }),
{
}

/// What was read is fresh from when it was read until ten minutes later.
pub proof fn a_reading_is_fresh_for_ten_minutes(snapshot: SnapshotView, now_ms: i64)
    ensures
        snapshot.observed_at <= now_ms && now_ms - snapshot.observed_at <= 10 * 60 * 1000
            ==> snapshot.fresh_at(now_ms),
        now_ms < snapshot.observed_at ==> !snapshot.fresh_at(now_ms),
        now_ms - snapshot.observed_at > 10 * 60 * 1000 ==> !snapshot.fresh_at(now_ms),
{
}

/// Of the activity the last hundred entries are kept, in order.
pub proof fn the_last_hundred_entries_are_kept(entries: Seq<ActivityView>, i: int)
    ensures
        entries.len() <= 100 ==> kept_activity(entries) == entries,
        entries.len() > 100 ==> kept_activity(entries).len() == 100,
        entries.len() > 100 && 0 <= i < 100 ==> kept_activity(entries)[i] == entries[entries.len()
            - 100 + i],
{
}

/// A new account is monitored, and nothing is known of it.
pub proof fn a_new_account_is_monitored_with_nothing_known(account_key: String, now_ms: i64)
    ensures
        ({
            let account = AccountView::fresh(account_key, now_ms);
            &&& account.account_key == account_key
            &&& account.phase == QuotaGuardPhase::Monitoring
            &&& account.snapshot is None
            &&& account.associated_workspace_ids.len() == 0
            &&& account.local_turn_registry.len() == 0
            &&& account.activity_entries.len() == 0
            &&& account.suspended_external_engines.len() == 0
            &&& account.monitor_healthy
            &&& account.last_error is None
            &&& account.updated_at == now_ms
            &&& account.breached_windows.len() == 0
            &&& account.fired_episodes.len() == 0
            &&& account.episode_policy is None
            &&& account.pending_local_starts.len() == 0
            &&& account.unmatched_started_turns.len() == 0
            &&& account.terminal_observations.len() == 0
            &&& account.pending_interrupt_index.len() == 0
            &&& !account.fire_at_or_above_on_next_snapshot
        }),
{
}

/// Before anything has happened there is no account, and what is counted is at zero.
pub proof fn a_state_begins_without_an_account()
    ensures
        ({
            let state = RuntimeView::initial();
            &&& state.schema_version == 2
            &&& state.lifecycle_generation == 0
            &&& state.next_operation_id == 0
            &&& state.account is None
            &&& state.effective_settings is None
            &&& state.pending_thresholds is None
        }),
{
}

/// Two turns are the same where all four of their names are.
pub proof fn turns_are_known_by_four_names(a: TurnKey, b: TurnKey)
    ensures
        a.same(b) <==> a.session_epoch@ == b.session_epoch@ && a.workspace_id@ == b.workspace_id@
            && a.thread_id@ == b.thread_id@ && a.turn_id@ == b.turn_id@,
        a.id() == a.session_epoch@ + seq!['\u{1f}'] + a.workspace_id@ + seq!['\u{1f}']
            + a.thread_id@ + seq!['\u{1f}'] + a.turn_id@,
{
}

/// An interrupt that is pending is found by its turn; of several for one turn the last is.
pub proof fn a_pending_interrupt_is_found_by_its_turn(
    pending: Seq<PendingInterrupt>,
    last: PendingInterrupt,
    id: Seq<char>,
)
    ensures
        ({
            let before = interrupts_by_turn(pending);
            let after = interrupts_by_turn(pending.push(last));
            &&& interrupts_by_turn(Seq::<PendingInterrupt>::empty()).dom().is_empty()
            &&& after.dom().contains(last.turn.id()) && after[last.turn.id()] == last
            &&& id != last.turn.id() ==> (after.dom().contains(id) <==> before.dom().contains(id))
            &&& id != last.turn.id() && before.dom().contains(id) ==> after[id] == before[id]
        }),
{
    assert(pending.push(last).drop_last() == pending);
}

/// A further entry of the activity comes last, and nothing else of the account changes.
pub proof fn a_further_entry_comes_last(account: AccountView, entry: ActivityView)
    ensures
        ({
            let after = account.with_activity(entry);
            &&& after.activity_entries.len() > 0
            &&& after.activity_entries.last() == entry
            &&& account.activity_entries.len() < 100 ==> after.activity_entries
                == account.activity_entries.push(entry)
            &&& after == (AccountView { activity_entries: after.activity_entries, ..account })
        }),
{
}

} // verus!
