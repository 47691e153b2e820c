//! What the limiter shows of itself.

use crate::collections::{KeyedList, TextSet};
use crate::gate::{GateView, ProcessGate, ProcessPolicy};
use crate::model::{
    among, copy_text, snapshot_view, text_view, AccountRuntime, AccountView, ActivityView,
    PendingInterrupt, QuotaGuardActivityEntry, QuotaGuardActivityKind, QuotaGuardPhase,
    QuotaGuardRuntimeState, QuotaWindowKind, RateLimitSnapshot, RuntimeView, SnapshotView, TurnKey,
};
use crate::request::{reason_name, spec_reason_name};
use crate::text::{decimal, decimal_text, signed_decimal, signed_decimal_text};
use vstd::prelude::*;
use vstd::string::*;

verus! {

/// What the message of a blocked request begins with.
pub const BLOCKED_PREFIX: &'static str = "QUOTA_GUARD_BLOCKED";

/// The name of a phase.
pub open spec fn spec_phase_name(phase: QuotaGuardPhase) -> Seq<char> {
    match phase {
        QuotaGuardPhase::Disabled => "disabled"@,
        QuotaGuardPhase::Monitoring => "monitoring"@,
        QuotaGuardPhase::Tripped => "tripped"@,
        QuotaGuardPhase::InterventionRequired => "interventionRequired"@,
    }
}

/// The name of a phase.
pub fn phase_name(phase: QuotaGuardPhase) -> (r: &'static str)
    ensures
        r@ == spec_phase_name(phase),
{
    match phase {
        QuotaGuardPhase::Disabled => "disabled",
        QuotaGuardPhase::Monitoring => "monitoring",
        QuotaGuardPhase::Tripped => "tripped",
        QuotaGuardPhase::InterventionRequired => "interventionRequired",
    }
}

/// The name of a policy.
pub open spec fn spec_policy_name(policy: ProcessPolicy) -> Seq<char> {
    match policy {
        ProcessPolicy::DisabledOpen => "disabledOpen"@,
        ProcessPolicy::EnabledClosed => "enabledClosed"@,
        ProcessPolicy::EnabledOpen => "enabledOpen"@,
    }
}

/// The name of a policy.
pub fn policy_name(policy: ProcessPolicy) -> (r: &'static str)
    ensures
        r@ == spec_policy_name(policy),
{
    match policy {
        ProcessPolicy::DisabledOpen => "disabledOpen",
        ProcessPolicy::EnabledClosed => "enabledClosed",
        ProcessPolicy::EnabledOpen => "enabledOpen",
    }
}

/// The message of a request that is blocked in a phase, with the time of the next check where
/// there is one.
pub open spec fn blocked_in_phase(phase: QuotaGuardPhase, verify_at: Option<i64>) -> Seq<char> {
    BLOCKED_PREFIX@ + "|state="@ + spec_phase_name(phase) + "|verifyAt="@ + match verify_at {
        Some(time) => signed_decimal(time as int),
        None => seq![],
    }
}

/// The message of a request that is blocked in a phase.
pub fn quota_guard_blocked_error(phase: QuotaGuardPhase, verify_at: Option<i64>) -> (r: String)
    ensures
        r@ == blocked_in_phase(phase, verify_at),
{
    let mut message = BLOCKED_PREFIX.to_owned();
    message.append("|state=");
    message.append(phase_name(phase));
    message.append("|verifyAt=");
    if let Some(time) = verify_at {
        message.append(signed_decimal_text(time).as_str());
    }
    assert(message@ =~= blocked_in_phase(phase, verify_at));
    message
}

/// A saved phase is read back as the phase that was saved.
pub proof fn phase_names_are_read_back(phase: QuotaGuardPhase)
    ensures
        QuotaGuardPhase::named(spec_phase_name(phase)) == Some(phase),
{
    reveal_strlit("disabled");
    reveal_strlit("monitoring");
    reveal_strlit("ready");
    reveal_strlit("revalidatingIdentity");
    reveal_strlit("tripped");
    reveal_strlit("interrupting");
    reveal_strlit("parked");
    reveal_strlit("verifyingReset");
    reveal_strlit("interventionRequired");
    assert("disabled"@.len() == 8);
    assert("monitoring"@.len() == 10);
    assert("ready"@.len() == 5);
    assert("revalidatingIdentity"@[0] == 'r');
    assert("tripped"@.len() == 7);
    assert("interrupting"@.len() == 12);
    assert("parked"@.len() == 6);
    assert("verifyingReset"@.len() == 14);
    assert("interventionRequired"@[0] == 'i');
    assert("interventionRequired"@.len() == 20);
}

/// A workspace that is bound to a session.
#[derive(Debug, PartialEq, Eq)]
pub struct Binding {
    pub session_epoch: String,
    pub canonical_codex_home: String,
}

impl Clone for Binding {
    fn clone(&self) -> (r: Binding)
        ensures
            r == *self,
    {
        Binding {
            session_epoch: self.session_epoch.clone(),
            canonical_codex_home: self.canonical_codex_home.clone(),
        }
    }
}

/// A turn, as it is shown.
#[derive(Debug, PartialEq, Eq)]
pub struct QuotaGuardPublicTurn {
    pub workspace_id: String,
    pub thread_id: String,
    pub turn_id: String,
}

/// The workspace, the thread and the turn that are shown of a turn.
pub type PublicTurnView = (Seq<char>, Seq<char>, Seq<char>);

/// A line of the activity log, as it is shown.
#[derive(Debug, PartialEq, Eq)]
pub struct QuotaGuardPublicActivityEntry {
    pub id: Option<String>,
    pub kind: QuotaGuardActivityKind,
    pub timestamp: i64,
    pub operation_id: Option<String>,
    pub workspace_id: Option<String>,
    pub thread_id: Option<String>,
    pub turn_id: Option<String>,
    pub attempt: Option<u8>,
    pub message: Option<String>,
}

/// What is shown of a line of the activity log.
pub struct PublicActivityView {
    pub id: Option<Seq<char>>,
    pub kind: QuotaGuardActivityKind,
    pub timestamp: i64,
    pub operation_id: Option<Seq<char>>,
    pub workspace_id: Option<Seq<char>>,
    pub thread_id: Option<Seq<char>>,
    pub turn_id: Option<Seq<char>>,
    pub attempt: Option<u8>,
    pub message: Option<Seq<char>>,
}

impl View for QuotaGuardPublicActivityEntry {
    type V = PublicActivityView;

    open spec fn view(&self) -> PublicActivityView {
        PublicActivityView {
            id: text_view(self.id),
            kind: self.kind,
            timestamp: self.timestamp,
            operation_id: text_view(self.operation_id),
            workspace_id: text_view(self.workspace_id),
            thread_id: text_view(self.thread_id),
            turn_id: text_view(self.turn_id),
            attempt: self.attempt,
            message: text_view(self.message),
        }
    }
}

/// What is shown of a line of the activity log: the line, with the operation id as a text.
pub open spec fn shown_activity(entry: ActivityView) -> PublicActivityView {
    PublicActivityView {
        id: entry.id,
        kind: entry.kind,
        timestamp: entry.timestamp,
        operation_id: match entry.operation_id {
            Some(id) => Some(decimal(id as nat)),
            None => None,
        },
        workspace_id: entry.workspace_id,
        thread_id: entry.thread_id,
        turn_id: entry.turn_id,
        attempt: entry.attempt,
        message: entry.message,
    }
}

/// Whether a workspace is admitted, as it is shown.
#[derive(Debug, PartialEq, Eq)]
pub struct AdmissionProjection {
    pub session_epoch: Option<String>,
    pub open: bool,
    pub reason: String,
}

/// What is shown of a workspace's admission.
pub struct AdmissionView {
    pub session_epoch: Option<Seq<char>>,
    pub open: bool,
    pub reason: Seq<char>,
}

impl View for AdmissionProjection {
    type V = AdmissionView;

    open spec fn view(&self) -> AdmissionView {
        AdmissionView {
            session_epoch: text_view(self.session_epoch),
            open: self.open,
            reason: self.reason@,
        }
    }
}

/// What the limiter shows of itself.
pub struct QuotaGuardPublicState {
    pub account_key: Option<String>,
    pub account_label: Option<String>,
    pub phase: QuotaGuardPhase,
    pub snapshot: Option<RateLimitSnapshot>,
    pub snapshot_fresh: bool,
    pub breached_windows: Vec<QuotaWindowKind>,
    pub affected_turns: Vec<QuotaGuardPublicTurn>,
    pub drain_deadline: Option<i64>,
    pub verify_at: Option<i64>,
    pub monitor_healthy: bool,
    pub last_error: Option<String>,
    pub activity: Vec<QuotaGuardPublicActivityEntry>,
    pub admission_by_workspace: KeyedList<AdmissionProjection>,
}

/// What the limiter shows of itself.
#[verifier::ext_equal]
pub struct PublicStateView {
    pub account_key: Option<Seq<char>>,
    pub account_label: Option<Seq<char>>,
    pub phase: QuotaGuardPhase,
    pub snapshot: Option<SnapshotView>,
    pub snapshot_fresh: bool,
    pub breached_windows: Seq<QuotaWindowKind>,
    pub affected_turns: Seq<PublicTurnView>,
    pub drain_deadline: Option<i64>,
    pub verify_at: Option<i64>,
    pub monitor_healthy: bool,
    pub last_error: Option<Seq<char>>,
    pub activity: Seq<PublicActivityView>,
    pub admission_by_workspace: Map<Seq<char>, AdmissionView>,
}

/// What is shown of each of the turns.
pub open spec fn public_turn_views(turns: Seq<QuotaGuardPublicTurn>) -> Seq<PublicTurnView> {
    turns.map_values(
        |turn: QuotaGuardPublicTurn| (turn.workspace_id@, turn.thread_id@, turn.turn_id@),
    )
}

impl View for QuotaGuardPublicState {
    type V = PublicStateView;

    open spec fn view(&self) -> PublicStateView {
        PublicStateView {
            account_key: text_view(self.account_key),
            account_label: text_view(self.account_label),
            phase: self.phase,
            snapshot: snapshot_view(self.snapshot),
            snapshot_fresh: self.snapshot_fresh,
            breached_windows: self.breached_windows@,
            affected_turns: public_turn_views(self.affected_turns@),
            drain_deadline: self.drain_deadline,
            verify_at: self.verify_at,
            monitor_healthy: self.monitor_healthy,
            last_error: text_view(self.last_error),
            activity: self.activity@.map_values(|entry: QuotaGuardPublicActivityEntry| entry@),
            admission_by_workspace: self.admission_by_workspace@.map_values(
                |projection: AdmissionProjection| projection@,
            ),
        }
    }
}

/// The epoch that a workspace is bound to.
pub open spec fn bound_epoch(bindings: Map<Seq<char>, Binding>, workspace_id: Seq<char>) -> Option<
    Seq<char>,
> {
    if bindings.dom().contains(workspace_id) {
        Some(bindings[workspace_id].session_epoch@)
    } else {
        None
    }
}

/// What is shown of a workspace's admission.
pub open spec fn shown_admission(
    gate: GateView,
    bindings: Map<Seq<char>, Binding>,
    workspace_id: Seq<char>,
) -> AdmissionView {
    let epoch = bound_epoch(bindings, workspace_id);
    let status = gate.status(epoch, workspace_id);
    AdmissionView {
        session_epoch: epoch,
        open: status.open,
        reason: spec_reason_name(status.reason),
    }
}

/// What is shown of the admission of each workspace that is configured or bound.
pub open spec fn shown_admissions(
    gate: GateView,
    configured: Seq<Seq<char>>,
    bindings: Map<Seq<char>, Binding>,
) -> Map<Seq<char>, AdmissionView> {
    Map::new(
        |workspace_id: Seq<char>|
            configured.contains(workspace_id) || bindings.dom().contains(workspace_id),
        |workspace_id: Seq<char>| shown_admission(gate, bindings, workspace_id),
    )
}

/// The turns without those that came before.
pub open spec fn distinct_turns(turns: Seq<TurnKey>) -> Seq<TurnKey>
    decreases turns.len(),
{
    if turns.len() == 0 {
        seq![]
    } else {
        let rest = distinct_turns(turns.drop_last());
        if among(rest, turns.last()) {
            rest
        } else {
            rest.push(turns.last())
        }
    }
}

/// The turns that are interrupted, in the order of their requests.
pub open spec fn interrupted_turns(pending: Seq<PendingInterrupt>) -> Seq<TurnKey> {
    pending.map_values(|p: PendingInterrupt| p.turn)
}

/// The turns that the limiter has to do with: the owned ones, and those that are interrupted.
pub open spec fn concerned_turns(account: AccountView) -> Seq<TurnKey> {
    account.local_turn_registry + interrupted_turns(account.pending_interrupt_index)
}

/// What is shown of each of the turns.
pub open spec fn shown_turns(turns: Seq<TurnKey>) -> Seq<PublicTurnView> {
    turns.map_values(|turn: TurnKey| (turn.workspace_id@, turn.thread_id@, turn.turn_id@))
}

/// What the limiter shows of itself. Whose account it is, is not shown.
pub open spec fn shown_state(
    runtime: RuntimeView,
    gate: GateView,
    configured: Seq<Seq<char>>,
    bindings: Map<Seq<char>, Binding>,
    now_ms: i64,
) -> PublicStateView {
    let admission_by_workspace = shown_admissions(gate, configured, bindings);
    match runtime.account {
        None => PublicStateView {
            account_key: None,
            account_label: None,
            phase: QuotaGuardPhase::Disabled,
            snapshot: None,
            snapshot_fresh: false,
            breached_windows: seq![],
            affected_turns: seq![],
            drain_deadline: None,
            verify_at: None,
            monitor_healthy: true,
            last_error: None,
            activity: seq![],
            admission_by_workspace,
        },
        Some(account) => PublicStateView {
            account_key: Some(account.account_key@),
            account_label: None,
            phase: account.phase,
            snapshot: snapshot_view(account.snapshot),
            snapshot_fresh: account.snapshot matches Some(snapshot) && snapshot@.fresh_at(now_ms),
            breached_windows: account.breached_windows,
            affected_turns: shown_turns(distinct_turns(concerned_turns(account))),
            drain_deadline: None,
            verify_at: None,
            monitor_healthy: account.monitor_healthy,
            last_error: account.last_error,
            activity: account.activity_entries.map_values(
                |entry: ActivityView| shown_activity(entry),
            ),
            admission_by_workspace,
        },
    }
}

fn project_admission(
    gate: &ProcessGate,
    bindings: &KeyedList<Binding>,
    workspace_id: &str,
) -> (r: AdmissionProjection)
    ensures
        r@ == shown_admission(gate@, bindings@, workspace_id@),
{
    match bindings.get(workspace_id) {
        Some(binding) => {
            let status = gate.status(Some(binding.session_epoch.as_str()), workspace_id);
            AdmissionProjection {
                session_epoch: Some(binding.session_epoch.clone()),
                open: status.open,
                reason: reason_name(status.reason).to_owned(),
            }
        },
        None => {
            let status = gate.status(None, workspace_id);
            AdmissionProjection {
                session_epoch: None,
                open: status.open,
                reason: reason_name(status.reason).to_owned(),
            }
        },
    }
}

/// What is shown of the admission of each workspace that is configured or bound.
pub fn admissions(
    gate: &ProcessGate,
    configured: &TextSet,
    bindings: &KeyedList<Binding>,
) -> (r: KeyedList<AdmissionProjection>)
    ensures
        r@.map_values(|projection: AdmissionProjection| projection@) == shown_admissions(
            gate@,
            configured@,
            bindings@,
        ),
{
    let mut out: KeyedList<AdmissionProjection> = KeyedList::new();
    let ids = configured.to_vec();
    let ghost all = crate::collections::text_views(ids@);
    let mut i: usize = 0;
    while i < ids.len()
        invariant
            i <= ids@.len(),
            all == crate::collections::text_views(ids@),
            forall|w: Seq<char>|
                out@.dom().contains(w) <==> exists|k: int| 0 <= k < i && #[trigger] all[k] == w,
            forall|w: Seq<char>|
                #[trigger] out@.dom().contains(w) ==> out@[w]@ == shown_admission(
                    gate@,
                    bindings@,
                    w,
                ),
        decreases ids@.len() - i,
    {
        let projection = project_admission(gate, bindings, ids[i].as_str());
        let ghost before = out@;
        out.insert(ids[i].as_str(), projection);
        proof {
            assert(all[i as int] == ids@[i as int]@);
            assert forall|w: Seq<char>|
                out@.dom().contains(w) <==> exists|k: int|
                    0 <= k < i + 1 && #[trigger] all[k] == w by {
                if before.dom().contains(w) {
                    let k = choose|k: int| 0 <= k < i && #[trigger] all[k] == w;
                    assert(all[k] == w);
                }
            }
        }
        i += 1;
    }
    let ghost first = out@;
    let mut j: usize = 0;
    while j < bindings.len()
        invariant
            j <= bindings.spec_len(),
            forall|w: Seq<char>|
                #![trigger out@.dom().contains(w)]
                out@.dom().contains(w) <==> first.dom().contains(w) || exists|k: int|
                    0 <= k < j && #[trigger] bindings.key_at(k) == w,
            forall|k: int| 0 <= k < j ==> bindings@.dom().contains(#[trigger] bindings.key_at(k)),
            forall|w: Seq<char>|
                #[trigger] out@.dom().contains(w) ==> out@[w]@ == shown_admission(
                    gate@,
                    bindings@,
                    w,
                ),
        decreases bindings.spec_len() - j,
    {
        let key = bindings.key(j);
        let projection = project_admission(gate, bindings, key);
        let ghost before = out@;
        out.insert(key, projection);
        proof {
            assert forall|w: Seq<char>|
                #![trigger out@.dom().contains(w)]
                out@.dom().contains(w) <==> first.dom().contains(w) || exists|k: int|
                    0 <= k < j + 1 && #[trigger] bindings.key_at(k) == w by {
                if w == key@ {
                    assert(bindings.key_at(j as int) == w);
                }
                assert(before.dom().contains(w) <==> first.dom().contains(w) || exists|k: int|
                    0 <= k < j && #[trigger] bindings.key_at(k) == w);
                if exists|k: int| 0 <= k < j + 1 && #[trigger] bindings.key_at(k) == w {
                    let k = choose|k: int| 0 <= k < j + 1 && #[trigger] bindings.key_at(k) == w;
                    if k < j {
                        assert(before.dom().contains(w));
                    }
                }
                if before.dom().contains(w) && !first.dom().contains(w) {
                    let k = choose|k: int| 0 <= k < j && #[trigger] bindings.key_at(k) == w;
                    assert(bindings.key_at(k) == w);
                }
            }
        }
        j += 1;
    }
    proof {
        let left = out@.map_values(|projection: AdmissionProjection| projection@);
        let right = shown_admissions(gate@, configured@, bindings@);
        assert forall|w: Seq<char>| left.dom().contains(w) <==> right.dom().contains(w) by {
            if bindings@.dom().contains(w) {
                bindings.lemma_keys_have_positions(w);
            }
            if configured@.contains(w) {
                let k = choose|k: int| 0 <= k < configured@.len() && configured@[k] == w;
                assert(all[k] == w);
                assert(first.dom().contains(w));
            }
            if first.dom().contains(w) {
                let k = choose|k: int| 0 <= k < ids@.len() && #[trigger] all[k] == w;
                assert(configured@[k] == w);
            }
        }
        assert forall|w: Seq<char>| left.dom().contains(w) implies left[w] == right[w] by {
            assert(out@.dom().contains(w));
        }
        assert(left =~= right);
    }
    out
}


fn push_distinct(turn: &TurnKey, seen: &mut Vec<TurnKey>)
    ensures
        final(seen)@ == if among(old(seen)@, *turn) {
            old(seen)@
        } else {
            old(seen)@.push(*turn)
        },
{
    let mut i: usize = 0;
    while i < seen.len()
        invariant
            i <= seen@.len(),
            seen@ == old(seen)@,
            forall|k: int| 0 <= k < i ==> (#[trigger] seen@[k]).id() != turn.id(),
        decreases seen@.len() - i,
    {
        if seen[i].same_id(turn) {
            assert(among(seen@, *turn));
            return ;
        }
        i += 1;
    }
    seen.push(turn.clone());
}

/// The turns that the limiter has to do with, each once.
pub fn affected_turns(account: &AccountRuntime) -> (r: Vec<TurnKey>)
    ensures
        r@ == distinct_turns(concerned_turns(account@)),
{
    let ghost all = concerned_turns(account@);
    let mut out: Vec<TurnKey> = Vec::new();
    let mut i: usize = 0;
    while i < account.local_turn_registry.len()
        invariant
            i <= account.local_turn_registry@.len(),
            all == concerned_turns(account@),
            out@ == distinct_turns(all.take(i as int)),
        decreases account.local_turn_registry@.len() - i,
    {
        push_distinct(&account.local_turn_registry[i], &mut out);
        proof {
            assert(all.take(i + 1).drop_last() =~= all.take(i as int));
            assert(all.take(i + 1).last() == account.local_turn_registry@[i as int]);
        }
        i += 1;
    }
    let mut j: usize = 0;
    while j < account.pending_interrupt_index.len()
        invariant
            i == account.local_turn_registry@.len(),
            j <= account.pending_interrupt_index@.len(),
            all == concerned_turns(account@),
            out@ == distinct_turns(all.take(i + j)),
        decreases account.pending_interrupt_index@.len() - j,
    {
        push_distinct(&account.pending_interrupt_index[j].turn, &mut out);
        proof {
            assert(all.take(i + j + 1).drop_last() =~= all.take(i + j));
            assert(all.take(i + j + 1).last() == account.pending_interrupt_index@[j as int].turn);
        }
        j += 1;
    }
    assert(all.take(i + j) =~= all);
    out
}

fn show_turns(turns: &Vec<TurnKey>) -> (r: Vec<QuotaGuardPublicTurn>)
    ensures
        public_turn_views(r@) == shown_turns(turns@),
{
    let mut out: Vec<QuotaGuardPublicTurn> = Vec::new();
    let mut i: usize = 0;
    while i < turns.len()
        invariant
            i <= turns@.len(),
            out@.len() == i,
            forall|k: int|
                0 <= k < i ==> (#[trigger] out@[k]).workspace_id@ == turns@[k].workspace_id@
                    && out@[k].thread_id@ == turns@[k].thread_id@ && out@[k].turn_id@
                    == turns@[k].turn_id@,
        decreases turns@.len() - i,
    {
        out.push(
            QuotaGuardPublicTurn {
                workspace_id: turns[i].workspace_id.clone(),
                thread_id: turns[i].thread_id.clone(),
                turn_id: turns[i].turn_id.clone(),
            },
        );
        i += 1;
    }
    assert(public_turn_views(out@) =~= shown_turns(turns@));
    out
}

fn show_entry(entry: &QuotaGuardActivityEntry) -> (r: QuotaGuardPublicActivityEntry)
    ensures
        r@ == shown_activity(entry@),
{
    QuotaGuardPublicActivityEntry {
        id: copy_text(&entry.id),
        kind: entry.kind,
        timestamp: entry.timestamp,
        operation_id: match entry.operation_id {
            Some(id) => Some(decimal_text(id)),
            None => None,
        },
        workspace_id: copy_text(&entry.workspace_id),
        thread_id: copy_text(&entry.thread_id),
        turn_id: copy_text(&entry.turn_id),
        attempt: entry.attempt,
        message: copy_text(&entry.message),
    }
}

fn show_activity(entries: &Vec<QuotaGuardActivityEntry>) -> (r: Vec<QuotaGuardPublicActivityEntry>)
    ensures
        r@.len() == entries@.len(),
        forall|i: int|
            0 <= i < r@.len() ==> (#[trigger] r@[i])@ == shown_activity(entries@[i]@),
{
    let mut out: Vec<QuotaGuardPublicActivityEntry> = Vec::new();
    let mut i: usize = 0;
    while i < entries.len()
        invariant
            i <= entries@.len(),
            out@.len() == i,
            forall|k: int| 0 <= k < i ==> (#[trigger] out@[k])@ == shown_activity(entries@[k]@),
        decreases entries@.len() - i,
    {
        out.push(show_entry(&entries[i]));
        i += 1;
    }
    out
}

/// What the limiter shows of itself.
pub fn public_state_with_bindings(
    runtime: &QuotaGuardRuntimeState,
    gate: &ProcessGate,
    configured: &TextSet,
    bindings: &KeyedList<Binding>,
    now_ms: i64,
) -> (r: QuotaGuardPublicState)
    ensures
        r@ == shown_state(runtime@, gate@, configured@, bindings@, now_ms),
{
    let admission_by_workspace = admissions(gate, configured, bindings);
    let account = match &runtime.account {
        Some(account) => account,
        None => {
            let r = QuotaGuardPublicState {
                account_key: None,
                account_label: None,
                phase: QuotaGuardPhase::Disabled,
                snapshot: None,
                snapshot_fresh: false,
                breached_windows: Vec::new(),
                affected_turns: Vec::new(),
                drain_deadline: None,
                verify_at: None,
                monitor_healthy: true,
                last_error: None,
                activity: Vec::new(),
                admission_by_workspace,
            };
            assert(r@ =~= shown_state(runtime@, gate@, configured@, bindings@, now_ms));
            return r;
        },
    };
    let turns = affected_turns(account);
    let affected = show_turns(&turns);
    let activity = show_activity(&account.activity_entries);
    let mut breached: Vec<QuotaWindowKind> = Vec::new();
    let mut i: usize = 0;
    while i < account.breached_windows.len()
        invariant
            i <= account.breached_windows@.len(),
            breached@ == account.breached_windows@.take(i as int),
        decreases account.breached_windows@.len() - i,
    {
        breached.push(account.breached_windows[i]);
        assert(account.breached_windows@.take(i + 1) =~= account.breached_windows@.take(
            i as int,
        ).push(account.breached_windows@[i as int]));
        i += 1;
    }
    assert(breached@ =~= account.breached_windows@);
    let (snapshot, snapshot_fresh) = match &account.snapshot {
        Some(snapshot) => (Some(snapshot.clone()), snapshot.is_fresh_at(now_ms)),
        None => (None, false),
    };
    let r = QuotaGuardPublicState {
        account_key: Some(account.account_key.clone()),
        account_label: None,
        phase: account.phase,
        snapshot,
        snapshot_fresh,
        breached_windows: breached,
        affected_turns: affected,
        drain_deadline: None,
        verify_at: None,
        monitor_healthy: account.monitor_healthy,
        last_error: copy_text(&account.last_error),
        activity,
        admission_by_workspace,
    };
    assert(r@.activity =~= shown_state(
        runtime@,
        gate@,
        configured@,
        bindings@,
        now_ms,
    ).activity);
    assert(r@ =~= shown_state(runtime@, gate@, configured@, bindings@, now_ms));
    r
}

/// A workspace that is not bound is never shown as admitted while the limiter is on, and a
/// closed process admits none.
pub proof fn unbound_workspaces_are_shown_closed(
    gate: GateView,
    configured: Seq<Seq<char>>,
    bindings: Map<Seq<char>, Binding>,
    workspace_id: Seq<char>,
)
    requires
        shown_admissions(gate, configured, bindings).dom().contains(workspace_id),
        gate.policy != ProcessPolicy::DisabledOpen,
        gate.policy == ProcessPolicy::EnabledClosed || !bindings.dom().contains(workspace_id),
    ensures
        !shown_admissions(gate, configured, bindings)[workspace_id].open,
{
}

/// Every configured workspace is shown, bound or not.
pub proof fn configured_workspaces_are_shown(
    gate: GateView,
    configured: Seq<Seq<char>>,
    bindings: Map<Seq<char>, Binding>,
    workspace_id: Seq<char>,
)
    requires
        configured.contains(workspace_id),
    ensures
        shown_admissions(gate, configured, bindings).dom().contains(workspace_id),
{
}

/// No turn is shown twice, and every owned turn is shown.
pub proof fn each_turn_is_shown_once(turns: Seq<TurnKey>)
    ensures
        forall|i: int, j: int|
            0 <= i < j < distinct_turns(turns).len() ==> (#[trigger] distinct_turns(turns)[i]).id()
                != (#[trigger] distinct_turns(turns)[j]).id(),
        forall|i: int| 0 <= i < turns.len() ==> among(distinct_turns(turns), #[trigger] turns[i]),
    decreases turns.len(),
{
    if turns.len() > 0 {
        let rest = turns.drop_last();
        each_turn_is_shown_once(rest);
        let shown = distinct_turns(turns);
        let before = distinct_turns(rest);
        assert forall|i: int, j: int| 0 <= i < j < shown.len() implies (#[trigger] shown[i]).id()
            != (#[trigger] shown[j]).id() by {
            if j < before.len() {
                assert(before[i].id() != before[j].id());
            } else {
                assert(before[i].id() != turns.last().id());
            }
        }
        assert forall|i: int| 0 <= i < turns.len() implies among(shown, #[trigger] turns[i]) by {
            if i < rest.len() {
                assert(among(before, rest[i]));
                let k = choose|k: int|
                    0 <= k < before.len() && (#[trigger] before[k]).id() == rest[i].id();
                assert(shown[k].id() == turns[i].id());
            } else if !among(before, turns.last()) {
                assert(shown[before.len() as int].id() == turns[i].id());
            }
        }
    }
}

} // verus!
