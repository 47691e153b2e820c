//! The state that the limiter keeps for an account.

use crate::json::{Json, JsonView};
use crate::settings::{QuotaAction, QuotaGuardSettings};
use crate::search::{lemma_placed, place_where, placed};
use crate::text::{one_text_precedes, precedes, preceding_is_transitive, same_text, text_precedes};
use vstd::prelude::*;
use vstd::string::*;

verus! {

/// How the limiter stands towards an account.
#[derive(Debug, Clone, Copy, PartialEq, Eq, Structural)]
pub enum QuotaGuardPhase {
    Disabled,
    Monitoring,
    Tripped,
    InterventionRequired,
}

impl QuotaGuardPhase {
    /// The phase that a persisted name stands for. Names of phases that are no longer entered
    /// stand for the phase that took their place.
    pub open spec fn named(name: Seq<char>) -> Option<QuotaGuardPhase> {
        if name == "disabled"@ {
            Some(QuotaGuardPhase::Disabled)
        } else if name == "monitoring"@ || name == "ready"@ || name == "revalidatingIdentity"@ {
            Some(QuotaGuardPhase::Monitoring)
        } else if name == "tripped"@ || name == "interrupting"@ || name == "parked"@ || name
            == "verifyingReset"@ {
            Some(QuotaGuardPhase::Tripped)
        } else if name == "interventionRequired"@ {
            Some(QuotaGuardPhase::InterventionRequired)
        } else {
            None
        }
    }

    /// The phase that a persisted name stands for.
    pub fn from_persisted(name: &str) -> (r: Option<QuotaGuardPhase>)
        ensures
            r == QuotaGuardPhase::named(name@),
    {
        if same_text(name, "disabled") {
            Some(QuotaGuardPhase::Disabled)
        } else if same_text(name, "monitoring") || same_text(name, "ready") || same_text(
            name,
            "revalidatingIdentity",
        ) {
            Some(QuotaGuardPhase::Monitoring)
        } else if same_text(name, "tripped") || same_text(name, "interrupting") || same_text(
            name,
            "parked",
        ) || same_text(name, "verifyingReset") {
            Some(QuotaGuardPhase::Tripped)
        } else if same_text(name, "interventionRequired") {
            Some(QuotaGuardPhase::InterventionRequired)
        } else {
            None
        }
    }
}

/// A limit that usage runs into.
#[derive(Debug, Clone, Copy, PartialEq, Eq, PartialOrd, Ord, Structural)]
pub enum QuotaWindowKind {
    Primary,
    Secondary,
    HardLimit,
}

/// One rate-limit window.
#[derive(Debug, Clone, Copy, PartialEq, Eq, Structural)]
pub struct RateLimitWindow {
    pub used_percent: u8,
    pub window_duration_mins: Option<u64>,
    pub reset_at: Option<i64>,
}

/// What an account's rate limits looked like at a moment.
#[derive(Debug, PartialEq)]
pub struct RateLimitSnapshot {
    pub primary: Option<RateLimitWindow>,
    pub secondary: Option<RateLimitWindow>,
    pub credits: Option<Json>,
    pub plan_type: Option<String>,
    pub rate_limit_reached_type: Option<String>,
    pub observed_at: i64,
}

/// What a snapshot holds.
#[verifier::ext_equal]
pub struct SnapshotView {
    pub primary: Option<RateLimitWindow>,
    pub secondary: Option<RateLimitWindow>,
    pub credits: Option<JsonView>,
    pub plan_type: Option<Seq<char>>,
    pub rate_limit_reached_type: Option<Seq<char>>,
    pub observed_at: i64,
}

/// What an optional text holds.
pub open spec fn text_view(text: Option<String>) -> Option<Seq<char>> {
    match text {
        Some(s) => Some(s@),
        None => None,
    }
}

/// What an optional document holds.
pub open spec fn document_view(document: Option<Json>) -> Option<JsonView> {
    match document {
        Some(json) => Some(json@),
        None => None,
    }
}

/// What an optional snapshot holds.
pub open spec fn snapshot_view(snapshot: Option<RateLimitSnapshot>) -> Option<SnapshotView> {
    match snapshot {
        Some(s) => Some(s@),
        None => None,
    }
}

impl View for RateLimitSnapshot {
    type V = SnapshotView;

    open spec fn view(&self) -> SnapshotView {
        SnapshotView {
            primary: self.primary,
            secondary: self.secondary,
            credits: document_view(self.credits),
            plan_type: text_view(self.plan_type),
            rate_limit_reached_type: text_view(self.rate_limit_reached_type),
            observed_at: self.observed_at,
        }
    }
}

impl SnapshotView {
    /// The window of the given kind; a hard limit has none.
    pub open spec fn window(self, kind: QuotaWindowKind) -> Option<RateLimitWindow> {
        match kind {
            QuotaWindowKind::Primary => self.primary,
            QuotaWindowKind::Secondary => self.secondary,
            QuotaWindowKind::HardLimit => None,
        }
    }

    /// Whether the snapshot is not from the future and at most ten minutes old.
    pub open spec fn fresh_at(self, now_ms: i64) -> bool {
        0 <= now_ms - self.observed_at <= 600_000
    }
}

/// A copy of an optional text.
pub fn copy_text(text: &Option<String>) -> (r: Option<String>)
    ensures
        r == *text,
{
    match text {
        Some(s) => Some(s.clone()),
        None => None,
    }
}

/// A copy of an optional document.
pub fn copy_document(document: &Option<Json>) -> (r: Option<Json>)
    ensures
        document_view(r) == document_view(*document),
{
    match document {
        Some(json) => Some(json.clone()),
        None => None,
    }
}

impl Clone for RateLimitSnapshot {
    fn clone(&self) -> (r: RateLimitSnapshot)
        ensures
            r@ == self@,
    {
        RateLimitSnapshot {
            primary: self.primary,
            secondary: self.secondary,
            credits: copy_document(&self.credits),
            plan_type: copy_text(&self.plan_type),
            rate_limit_reached_type: copy_text(&self.rate_limit_reached_type),
            observed_at: self.observed_at,
        }
    }
}

impl RateLimitSnapshot {
    /// Whether the snapshot is not from the future and at most ten minutes old.
    pub fn is_fresh_at(&self, now_ms: i64) -> (r: bool)
        ensures
            r == self@.fresh_at(now_ms),
    {
        if now_ms < self.observed_at {
            return false;
        }
        match now_ms.checked_sub(self.observed_at) {
            Some(age) => age <= 600_000,
            None => false,
        }
    }

    /// The window of the given kind; a hard limit has none.
    pub fn window(&self, kind: QuotaWindowKind) -> (r: Option<&RateLimitWindow>)
        ensures
            match r {
                Some(window) => self@.window(kind) == Some(*window),
                None => self@.window(kind) is None,
            },
    {
        match kind {
            QuotaWindowKind::Primary => self.primary.as_ref(),
            QuotaWindowKind::Secondary => self.secondary.as_ref(),
            QuotaWindowKind::HardLimit => None,
        }
    }
}

/// A process outside the limiter that it has suspended.
#[derive(Debug, PartialEq, Eq)]
pub struct SuspendedExternalEngine {
    pub pid: u32,
    pub process_start_time: u64,
    pub image_path: String,
    pub suspended_at: i64,
}

impl Clone for SuspendedExternalEngine {
    fn clone(&self) -> (r: SuspendedExternalEngine)
        ensures
            r == *self,
    {
        SuspendedExternalEngine {
            pid: self.pid,
            process_start_time: self.process_start_time,
            image_path: self.image_path.clone(),
            suspended_at: self.suspended_at,
        }
    }
}

/// The identity of a turn.
#[derive(Debug, PartialEq, Eq)]
pub struct TurnKey {
    pub session_epoch: String,
    pub workspace_id: String,
    pub thread_id: String,
    pub turn_id: String,
}

impl Clone for TurnKey {
    fn clone(&self) -> (r: TurnKey)
        ensures
            r == *self,
    {
        TurnKey {
            session_epoch: self.session_epoch.clone(),
            workspace_id: self.workspace_id.clone(),
            thread_id: self.thread_id.clone(),
            turn_id: self.turn_id.clone(),
        }
    }
}

impl TurnKey {
    /// The four parts, with a unit separator between each two.
    pub open spec fn id(self) -> Seq<char> {
        self.session_epoch@ + seq!['\u{1f}'] + self.workspace_id@ + seq!['\u{1f}']
            + self.thread_id@ + seq!['\u{1f}'] + self.turn_id@
    }

    /// Whether the two keys hold the same four parts.
    pub open spec fn same(self, other: TurnKey) -> bool {
        &&& self.session_epoch@ == other.session_epoch@
        &&& self.workspace_id@ == other.workspace_id@
        &&& self.thread_id@ == other.thread_id@
        &&& self.turn_id@ == other.turn_id@
    }

    /// A text that identifies the turn.
    pub fn stable_id(&self) -> (r: String)
        ensures
            r@ == self.id(),
    {
        let mut out = self.session_epoch.clone();
        out.push('\u{1f}');
        out.append(self.workspace_id.as_str());
        out.push('\u{1f}');
        out.append(self.thread_id.as_str());
        out.push('\u{1f}');
        out.append(self.turn_id.as_str());
        proof {
            let sep = seq!['\u{1f}'];
            assert(out@ =~= self.id());
        }
        out
    }

    /// Whether the two turns have the same identifying text.
    pub fn same_id(&self, other: &TurnKey) -> (r: bool)
        ensures
            r == (self.id() == other.id()),
    {
        self.stable_id() == other.stable_id()
    }
}

/// What a response answers: a threshold of a window, or the hard limit.
#[derive(Debug, PartialEq, Eq, PartialOrd, Ord)]
pub enum EpisodeKey {
    Threshold {
        account_key: String,
        window: QuotaWindowKind,
        threshold_percent: u8,
        resets_at: Option<i64>,
    },
    HardLimit { account_key: String },
}

/// What an episode key holds.
pub enum EpisodeView {
    Threshold {
        account_key: Seq<char>,
        window: QuotaWindowKind,
        threshold_percent: u8,
        resets_at: Option<i64>,
    },
    HardLimit { account_key: Seq<char> },
}

impl View for EpisodeKey {
    type V = EpisodeView;

    open spec fn view(&self) -> EpisodeView {
        match *self {
            EpisodeKey::Threshold { account_key, window, threshold_percent, resets_at } => {
                EpisodeView::Threshold {
                    account_key: account_key@,
                    window,
                    threshold_percent,
                    resets_at,
                }
            },
            EpisodeKey::HardLimit { account_key } => EpisodeView::HardLimit {
                account_key: account_key@,
            },
        }
    }
}

/// What each of the episode keys holds.
pub open spec fn episode_views(episodes: Seq<EpisodeKey>) -> Seq<EpisodeView> {
    episodes.map_values(|episode: EpisodeKey| episode@)
}

/// The episodes with another among them.
pub open spec fn with_episode(episodes: Seq<EpisodeKey>, episode: EpisodeKey) -> Seq<EpisodeKey> {
    if episode_views(episodes).contains(episode@) {
        episodes
    } else {
        episodes.push(episode)
    }
}

impl EpisodeKey {
    /// Whether the two keys stand for the same episode.
    pub fn same_episode(&self, other: &EpisodeKey) -> (r: bool)
        ensures
            r == (self@ == other@),
    {
        match (self, other) {
            (
                EpisodeKey::Threshold { account_key, window, threshold_percent, resets_at },
                EpisodeKey::Threshold {
                    account_key: other_account,
                    window: other_window,
                    threshold_percent: other_threshold,
                    resets_at: other_reset,
                },
            ) => same_text(account_key.as_str(), other_account.as_str()) && *window == *other_window
                && *threshold_percent == *other_threshold && same_time(*resets_at, *other_reset),
            (
                EpisodeKey::HardLimit { account_key },
                EpisodeKey::HardLimit { account_key: other_account },
            ) => same_text(account_key.as_str(), other_account.as_str()),
            _ => false,
        }
    }
}

/// Whether the two optional times are the same.
pub fn same_time(a: Option<i64>, b: Option<i64>) -> (r: bool)
    ensures
        r == (a == b),
{
    match (a, b) {
        (Some(x), Some(y)) => x == y,
        (None, None) => true,
        _ => false,
    }
}

impl Clone for EpisodeKey {
    fn clone(&self) -> (r: EpisodeKey)
        ensures
            r == *self,
    {
        match self {
            EpisodeKey::Threshold { account_key, window, threshold_percent, resets_at } => {
                EpisodeKey::Threshold {
                    account_key: account_key.clone(),
                    window: *window,
                    threshold_percent: *threshold_percent,
                    resets_at: *resets_at,
                }
            },
            EpisodeKey::HardLimit { account_key } => EpisodeKey::HardLimit {
                account_key: account_key.clone(),
            },
        }
    }
}

/// The response that an episode was opened with.
#[derive(Debug, Clone, Copy, PartialEq, Eq, Structural)]
pub struct EpisodePolicy {
    pub action: QuotaAction,
    pub external_suspend: bool,
    pub prevent_new_sessions: bool,
    pub reset_grace_minutes: u16,
}

/// An interrupt that has been requested and not confirmed.
#[derive(Debug, PartialEq, Eq)]
pub struct PendingInterrupt {
    pub turn: TurnKey,
    pub generation: u64,
    pub operation_id: u64,
    pub attempt: u8,
    pub acknowledged: bool,
    pub ack_deadline: i64,
    pub completion_deadline: Option<i64>,
}

/// What is to happen to a turn when its start is confirmed.
#[derive(Debug, Clone, Copy, PartialEq, Eq, Structural)]
pub enum PendingStartDisposition {
    InterruptOnBind,
}

/// A turn that was asked for here and whose start is not confirmed yet.
#[derive(Debug, PartialEq, Eq)]
pub struct PendingLocalStart {
    pub request_id: u64,
    pub session_epoch: String,
    pub workspace_id: String,
    pub request_thread_id: Option<String>,
    pub expected_thread_id: Option<String>,
    pub request_kind: String,
    pub response_thread_id: Option<String>,
    pub response_received_at: Option<i64>,
    pub generation: u64,
    pub disposition: Option<PendingStartDisposition>,
    pub registered_at: i64,
}

/// A turn that started while it was open which pending start it belongs to.
#[derive(Debug, PartialEq, Eq)]
pub struct UnmatchedStartedTurn {
    pub turn: TurnKey,
    pub generation: u64,
    pub observed_at: i64,
}

/// The end of a turn that is still unmatched.
#[derive(Debug, PartialEq)]
pub struct TerminalObservation {
    pub turn: TurnKey,
    pub generation: u64,
    pub status: String,
    pub error: Option<Json>,
    pub observed_at: i64,
}

/// What an activity entry reports.
#[derive(Debug, Clone, Copy, PartialEq, Eq, Structural)]
pub enum QuotaGuardActivityKind {
    StateChanged,
    NotificationSent,
    NotificationFailed,
    InterruptRequested,
    InterruptAcknowledged,
    InterruptCompleted,
    MonitorError,
    ExternalEngineSuspended,
    ExternalEngineResumed,
    ExternalEngineSkipped,
}

/// A line of the activity log.
#[derive(Debug, PartialEq, Eq)]
pub struct QuotaGuardActivityEntry {
    pub id: Option<String>,
    pub kind: QuotaGuardActivityKind,
    pub timestamp: i64,
    pub operation_id: Option<u64>,
    pub workspace_id: Option<String>,
    pub thread_id: Option<String>,
    pub turn_id: Option<String>,
    pub attempt: Option<u8>,
    pub message: Option<String>,
}

/// What an activity entry holds.
pub struct ActivityView {
    pub id: Option<Seq<char>>,
    pub kind: QuotaGuardActivityKind,
    pub timestamp: i64,
    pub operation_id: Option<u64>,
    pub workspace_id: Option<Seq<char>>,
    pub thread_id: Option<Seq<char>>,
    pub turn_id: Option<Seq<char>>,
    pub attempt: Option<u8>,
    pub message: Option<Seq<char>>,
}

impl View for QuotaGuardActivityEntry {
    type V = ActivityView;

    open spec fn view(&self) -> ActivityView {
        ActivityView {
            id: text_view(self.id),
            kind: self.kind,
            timestamp: self.timestamp,
            operation_id: self.operation_id,
            workspace_id: text_view(self.workspace_id),
            thread_id: text_view(self.thread_id),
            turn_id: text_view(self.turn_id),
            attempt: self.attempt,
            message: text_view(self.message),
        }
    }
}

impl ActivityView {
    /// An entry of the given kind with a message and nothing else.
    pub open spec fn message_entry(
        kind: QuotaGuardActivityKind,
        timestamp: i64,
        message: Seq<char>,
    ) -> ActivityView {
        ActivityView {
            id: None,
            kind,
            timestamp,
            operation_id: None,
            workspace_id: None,
            thread_id: None,
            turn_id: None,
            attempt: None,
            message: Some(message),
        }
    }
}

impl Clone for QuotaGuardActivityEntry {
    fn clone(&self) -> (r: QuotaGuardActivityEntry)
        ensures
            r == *self,
    {
        QuotaGuardActivityEntry {
            id: copy_text(&self.id),
            kind: self.kind,
            timestamp: self.timestamp,
            operation_id: self.operation_id,
            workspace_id: copy_text(&self.workspace_id),
            thread_id: copy_text(&self.thread_id),
            turn_id: copy_text(&self.turn_id),
            attempt: self.attempt,
            message: copy_text(&self.message),
        }
    }
}

impl QuotaGuardActivityEntry {
    /// An entry of the given kind with a message and nothing else.
    pub fn message_entry(
        kind: QuotaGuardActivityKind,
        timestamp: i64,
        message: String,
    ) -> (r: QuotaGuardActivityEntry)
        ensures
            r@ == ActivityView::message_entry(kind, timestamp, message@),
    {
        QuotaGuardActivityEntry {
            id: None,
            kind,
            timestamp,
            operation_id: None,
            workspace_id: None,
            thread_id: None,
            turn_id: None,
            attempt: None,
            message: Some(message),
        }
    }
}

/// How many entries the activity log keeps.
pub const ACTIVITY_LIMIT: usize = 100;

/// How many started turns, and how many ends of turns, may wait for a match.
pub const PROVISIONAL_LIMIT: usize = 32;

/// The state that the limiter keeps for an account.
#[derive(Debug, PartialEq)]
pub struct AccountRuntime {
    pub account_key: String,
    pub phase: QuotaGuardPhase,
    pub snapshot: Option<RateLimitSnapshot>,
    pub associated_workspace_ids: Vec<String>,
    pub local_turn_registry: Vec<TurnKey>,
    pub activity_entries: Vec<QuotaGuardActivityEntry>,
    pub suspended_external_engines: Vec<SuspendedExternalEngine>,
    pub monitor_healthy: bool,
    pub last_error: Option<String>,
    pub updated_at: i64,
    pub breached_windows: Vec<QuotaWindowKind>,
    pub fired_episodes: Vec<EpisodeKey>,
    pub episode_policy: Option<EpisodePolicy>,
    pub pending_local_starts: Vec<PendingLocalStart>,
    pub unmatched_started_turns: Vec<UnmatchedStartedTurn>,
    pub terminal_observations: Vec<TerminalObservation>,
    pub pending_interrupt_index: Vec<PendingInterrupt>,
    pub fire_at_or_above_on_next_snapshot: bool,
}

/// What an account's state holds.
#[verifier::ext_equal]
pub struct AccountView {
    pub account_key: String,
    pub phase: QuotaGuardPhase,
    pub snapshot: Option<RateLimitSnapshot>,
    pub associated_workspace_ids: Seq<String>,
    pub local_turn_registry: Seq<TurnKey>,
    pub activity_entries: Seq<ActivityView>,
    pub suspended_external_engines: Seq<SuspendedExternalEngine>,
    pub monitor_healthy: bool,
    pub last_error: Option<Seq<char>>,
    pub updated_at: i64,
    pub breached_windows: Seq<QuotaWindowKind>,
    pub fired_episodes: Seq<EpisodeKey>,
    pub episode_policy: Option<EpisodePolicy>,
    pub pending_local_starts: Seq<PendingLocalStart>,
    pub unmatched_started_turns: Seq<UnmatchedStartedTurn>,
    pub terminal_observations: Seq<TerminalObservation>,
    pub pending_interrupt_index: Seq<PendingInterrupt>,
    pub fire_at_or_above_on_next_snapshot: bool,
}

/// What each of the entries holds.
pub open spec fn activity_views(entries: Seq<QuotaGuardActivityEntry>) -> Seq<ActivityView> {
    entries.map_values(|entry: QuotaGuardActivityEntry| entry@)
}

/// The last entries of a log, as many as it keeps.
pub open spec fn kept_activity(entries: Seq<ActivityView>) -> Seq<ActivityView> {
    if entries.len() > ACTIVITY_LIMIT {
        entries.skip(entries.len() - ACTIVITY_LIMIT)
    } else {
        entries
    }
}

/// The pending interrupt of each turn.
pub open spec fn interrupts_by_turn(pending: Seq<PendingInterrupt>) -> Map<
    Seq<char>,
    PendingInterrupt,
>
    decreases pending.len(),
{
    if pending.len() == 0 {
        Map::empty()
    } else {
        interrupts_by_turn(pending.drop_last()).insert(pending.last().turn.id(), pending.last())
    }
}

impl View for AccountRuntime {
    type V = AccountView;

    open spec fn view(&self) -> AccountView {
        AccountView {
            account_key: self.account_key,
            phase: self.phase,
            snapshot: self.snapshot,
            associated_workspace_ids: self.associated_workspace_ids@,
            local_turn_registry: self.local_turn_registry@,
            activity_entries: activity_views(self.activity_entries@),
            suspended_external_engines: self.suspended_external_engines@,
            monitor_healthy: self.monitor_healthy,
            last_error: text_view(self.last_error),
            updated_at: self.updated_at,
            breached_windows: self.breached_windows@,
            fired_episodes: self.fired_episodes@,
            episode_policy: self.episode_policy,
            pending_local_starts: self.pending_local_starts@,
            unmatched_started_turns: self.unmatched_started_turns@,
            terminal_observations: self.terminal_observations@,
            pending_interrupt_index: self.pending_interrupt_index@,
            fire_at_or_above_on_next_snapshot: self.fire_at_or_above_on_next_snapshot,
        }
    }
}

impl AccountView {
    /// The state of an account that nothing is known of yet.
    pub open spec fn fresh(account_key: String, now_ms: i64) -> AccountView {
        AccountView {
            account_key,
            phase: QuotaGuardPhase::Monitoring,
            snapshot: None,
            associated_workspace_ids: Seq::empty(),
            local_turn_registry: Seq::empty(),
            activity_entries: Seq::empty(),
            suspended_external_engines: Seq::empty(),
            monitor_healthy: true,
            last_error: None,
            updated_at: now_ms,
            breached_windows: Seq::empty(),
            fired_episodes: Seq::empty(),
            episode_policy: None,
            pending_local_starts: Seq::empty(),
            unmatched_started_turns: Seq::empty(),
            terminal_observations: Seq::empty(),
            pending_interrupt_index: Seq::empty(),
            fire_at_or_above_on_next_snapshot: false,
        }
    }

    /// The account with an entry added to its activity log.
    pub open spec fn with_activity(self, entry: ActivityView) -> AccountView {
        AccountView { activity_entries: kept_activity(self.activity_entries.push(entry)), ..self }
    }

    /// Whether the turn is one of the owned ones.
    pub open spec fn owns(self, turn: TurnKey) -> bool {
        among(self.local_turn_registry, turn)
    }

    /// What every operation keeps: no turn is owned twice, no request is pending twice, no
    /// turn has two pending interrupts, both stand in the order of their keys, and the logs and
    /// buffers stay within their limits.
    pub open spec fn well_formed(self) -> bool {
        &&& forall|i: int, j: int|
            0 <= i < j < self.local_turn_registry.len() ==> (#[trigger] self.local_turn_registry[i]).id()
                != (#[trigger] self.local_turn_registry[j]).id()
        &&& ordered_starts(self.pending_local_starts)
        &&& unique_interrupts(self.pending_interrupt_index)
        &&& ordered_interrupts(self.pending_interrupt_index)
        &&& self.activity_entries.len() <= ACTIVITY_LIMIT
        &&& self.unmatched_started_turns.len() <= PROVISIONAL_LIMIT
        &&& self.terminal_observations.len() <= PROVISIONAL_LIMIT
    }
}

/// Whether one of `turns` has the turn's identity.
pub open spec fn among(turns: Seq<TurnKey>, turn: TurnKey) -> bool {
    exists|i: int| 0 <= i < turns.len() && (#[trigger] turns[i]).id() == turn.id()
}

/// Whether no turn has two pending interrupts.
pub open spec fn unique_interrupts(pending: Seq<PendingInterrupt>) -> bool {
    forall|i: int, j: int|
        0 <= i < j < pending.len() ==> (#[trigger] pending[i]).turn.id() != (
        #[trigger] pending[j]).turn.id()
}

/// Whether the pending starts stand in the order of their requests, each with one of its own.
pub open spec fn ordered_starts(starts: Seq<PendingLocalStart>) -> bool {
    forall|i: int, j: int|
        0 <= i < j < starts.len() ==> (#[trigger] starts[i]).request_id < (
        #[trigger] starts[j]).request_id
}

/// Whether the pending interrupts stand in the order of the texts that identify their turns.
pub open spec fn ordered_interrupts(pending: Seq<PendingInterrupt>) -> bool {
    forall|i: int, j: int|
        0 <= i < j < pending.len() ==> precedes(
            (#[trigger] pending[i]).turn.id(),
            (#[trigger] pending[j]).turn.id(),
        )
}

/// The pending starts with another in its place.
pub open spec fn with_start(starts: Seq<PendingLocalStart>, start: PendingLocalStart) -> Seq<
    PendingLocalStart,
> {
    placed(starts, start, |known: PendingLocalStart| start.request_id < known.request_id)
}

/// The pending interrupts with another in its place.
pub open spec fn with_interrupt(pending: Seq<PendingInterrupt>, request: PendingInterrupt) -> Seq<
    PendingInterrupt,
> {
    placed(pending, request, |known: PendingInterrupt| precedes(request.turn.id(), known.turn.id()))
}

/// A start of a new request keeps the pending starts in order.
pub proof fn starts_stay_ordered(starts: Seq<PendingLocalStart>, start: PendingLocalStart)
    requires
        ordered_starts(starts),
        forall|i: int|
            0 <= i < starts.len() ==> (#[trigger] starts[i]).request_id != start.request_id,
    ensures
        ordered_starts(with_start(starts, start)),
{
    let behind = |known: PendingLocalStart| start.request_id < known.request_id;
    let at = lemma_placed(starts, start, behind);
    let after = with_start(starts, start);
    assert forall|i: int, j: int| 0 <= i < j < after.len() implies (#[trigger] after[i]).request_id
        < (#[trigger] after[j]).request_id by {
        if j == at {
            assert(!behind(starts[i]));
        } else if i == at {
            assert(starts[at].request_id <= starts[j - 1].request_id);
        } else {
            let i2 = if i < at { i } else { i - 1 };
            let j2 = if j < at { j } else { j - 1 };
            assert(starts[i2].request_id < starts[j2].request_id);
        }
    }
}

/// An interrupt of a turn that has none keeps the pending interrupts in order and apart.
pub proof fn interrupts_stay_ordered(pending: Seq<PendingInterrupt>, request: PendingInterrupt)
    requires
        unique_interrupts(pending),
        forall|i: int|
            0 <= i < pending.len() ==> (#[trigger] pending[i]).turn.id() != request.turn.id(),
    ensures
        unique_interrupts(with_interrupt(pending, request)),
        ordered_interrupts(pending) ==> ordered_interrupts(with_interrupt(pending, request)),
{
    let behind = |known: PendingInterrupt| precedes(request.turn.id(), known.turn.id());
    let at = lemma_placed(pending, request, behind);
    let after = with_interrupt(pending, request);
    assert forall|i: int, j: int| 0 <= i < j < after.len() implies (#[trigger] after[i]).turn.id()
        != (#[trigger] after[j]).turn.id() by {
        let i2 = if i < at { i } else { i - 1 };
        let j2 = if j < at { j } else { j - 1 };
        if j == at {
            assert(after[i] == pending[i]);
        } else if i == at {
            assert(after[j] == pending[j - 1]);
        } else {
            assert(pending[i2].turn.id() != pending[j2].turn.id());
        }
    }
    if ordered_interrupts(pending) {
        assert forall|i: int, j: int| 0 <= i < j < after.len() implies precedes(
            (#[trigger] after[i]).turn.id(),
            (#[trigger] after[j]).turn.id(),
        ) by {
            let i2 = if i < at { i } else { i - 1 };
            let j2 = if j < at { j } else { j - 1 };
            if j == at {
                assert(after[i] == pending[i]);
                assert(!behind(pending[i]));
                one_text_precedes(pending[i].turn.id(), request.turn.id());
            } else if i == at {
                assert(after[j] == pending[j - 1]);
                assert(behind(pending[at]));
                if at < j - 1 {
                    assert(precedes(pending[at].turn.id(), pending[j - 1].turn.id()));
                    preceding_is_transitive(
                        request.turn.id(),
                        pending[at].turn.id(),
                        pending[j - 1].turn.id(),
                    );
                }
            } else {
                assert(precedes(pending[i2].turn.id(), pending[j2].turn.id()));
            }
        }
    }
}

/// Puts a pending start in its place.
pub(crate) fn place_start(starts: &mut Vec<PendingLocalStart>, start: PendingLocalStart)
    ensures
        final(starts)@ == with_start(old(starts)@, start),
{
    let request_id: u64 = start.request_id;
    let behind = |known: &PendingLocalStart| -> (b: bool)
        ensures
            b == (request_id < known.request_id),
    { request_id < known.request_id };
    place_where(
        starts,
        start,
        behind,
        Ghost(|known: PendingLocalStart| start.request_id < known.request_id),
    );
}

/// Puts a pending interrupt in its place.
pub(crate) fn place_interrupt(pending: &mut Vec<PendingInterrupt>, request: PendingInterrupt)
    ensures
        final(pending)@ == with_interrupt(old(pending)@, request),
{
    let id = request.turn.stable_id();
    let behind = |known: &PendingInterrupt| -> (b: bool)
        ensures
            b == precedes(id@, known.turn.id()),
    { text_precedes(id.as_str(), known.turn.stable_id().as_str()) };
    place_where(
        pending,
        request,
        behind,
        Ghost(|known: PendingInterrupt| precedes(request.turn.id(), known.turn.id())),
    );
}

/// Thresholds that wait until they have settled.
#[derive(Debug, Clone, Copy, PartialEq, Eq, Structural)]
pub struct PendingThresholdSettings {
    pub primary_threshold_percent: u8,
    pub secondary_threshold_percent: u8,
    pub settles_at: i64,
}

/// The version of the persisted state.
pub const STATE_SCHEMA_VERSION: u32 = 2;

/// The limiter's state.
#[derive(Debug, PartialEq)]
pub struct QuotaGuardRuntimeState {
    pub schema_version: u32,
    pub lifecycle_generation: u64,
    pub next_operation_id: u64,
    pub account: Option<AccountRuntime>,
    pub effective_settings: Option<QuotaGuardSettings>,
    pub pending_thresholds: Option<PendingThresholdSettings>,
}

/// What the limiter's state holds.
#[verifier::ext_equal]
pub struct RuntimeView {
    pub schema_version: u32,
    pub lifecycle_generation: u64,
    pub next_operation_id: u64,
    pub account: Option<AccountView>,
    pub effective_settings: Option<QuotaGuardSettings>,
    pub pending_thresholds: Option<PendingThresholdSettings>,
}

/// What an optional account state holds.
pub open spec fn account_view(account: Option<AccountRuntime>) -> Option<AccountView> {
    match account {
        Some(a) => Some(a@),
        None => None,
    }
}

impl View for QuotaGuardRuntimeState {
    type V = RuntimeView;

    open spec fn view(&self) -> RuntimeView {
        RuntimeView {
            schema_version: self.schema_version,
            lifecycle_generation: self.lifecycle_generation,
            next_operation_id: self.next_operation_id,
            account: account_view(self.account),
            effective_settings: self.effective_settings,
            pending_thresholds: self.pending_thresholds,
        }
    }
}

impl RuntimeView {
    /// The state before anything has happened.
    pub open spec fn initial() -> RuntimeView {
        RuntimeView {
            schema_version: STATE_SCHEMA_VERSION,
            lifecycle_generation: 0,
            next_operation_id: 0,
            account: None,
            effective_settings: None,
            pending_thresholds: None,
        }
    }

    /// Whether the account's state, if there is one, is well formed.
    pub open spec fn well_formed(self) -> bool {
        self.account matches Some(account) ==> account.well_formed()
    }
}

impl Default for QuotaGuardRuntimeState {
    fn default() -> (r: QuotaGuardRuntimeState)
        ensures
            r@ == RuntimeView::initial(),
    {
        QuotaGuardRuntimeState {
            schema_version: STATE_SCHEMA_VERSION,
            lifecycle_generation: 0,
            next_operation_id: 0,
            account: None,
            effective_settings: None,
            pending_thresholds: None,
        }
    }
}

proof fn lemma_interrupts_lookup(pending: Seq<PendingInterrupt>)
    requires
        unique_interrupts(pending),
    ensures
        forall|id: Seq<char>|
            #![trigger interrupts_by_turn(pending).dom().contains(id)]
            interrupts_by_turn(pending).dom().contains(id) <==> exists|i: int|
                0 <= i < pending.len() && (#[trigger] pending[i]).turn.id() == id,
        forall|i: int|
            0 <= i < pending.len() ==> interrupts_by_turn(
                pending,
            )[(#[trigger] pending[i]).turn.id()] == pending[i],
    decreases pending.len(),
{
    if pending.len() > 0 {
        let rest = pending.drop_last();
        assert forall|i: int, j: int| 0 <= i < j < rest.len() implies (#[trigger] rest[i]).turn.id()
            != (#[trigger] rest[j]).turn.id() by {
            assert(pending[i].turn.id() != pending[j].turn.id());
        }
        lemma_interrupts_lookup(rest);
        assert forall|id: Seq<char>|
            #![trigger interrupts_by_turn(pending).dom().contains(id)]
            interrupts_by_turn(pending).dom().contains(id) <==> exists|i: int|
                0 <= i < pending.len() && (#[trigger] pending[i]).turn.id() == id by {
            if interrupts_by_turn(pending).dom().contains(id) {
                if id == pending.last().turn.id() {
                    assert(pending[pending.len() - 1].turn.id() == id);
                } else {
                    assert(interrupts_by_turn(rest).dom().contains(id));
                    let i = choose|i: int| 0 <= i < rest.len() && (#[trigger] rest[i]).turn.id() == id;
                    assert(pending[i].turn.id() == id);
                }
            }
            if exists|i: int| 0 <= i < pending.len() && (#[trigger] pending[i]).turn.id() == id {
                let i = choose|i: int|
                    0 <= i < pending.len() && (#[trigger] pending[i]).turn.id() == id;
                if i < rest.len() {
                    assert(rest[i].turn.id() == id);
                    assert(interrupts_by_turn(rest).dom().contains(id));
                }
            }
        }
        assert forall|i: int| 0 <= i < pending.len() implies interrupts_by_turn(
            pending,
        )[(#[trigger] pending[i]).turn.id()] == pending[i] by {
            if i < rest.len() {
                assert(rest[i] == pending[i]);
                assert(pending[i].turn.id() != pending[pending.len() - 1].turn.id());
            }
        }
    }
}

impl AccountRuntime {
    /// The state of an account that nothing is known of yet.
    pub fn new(account_key: String, now_ms: i64) -> (r: AccountRuntime)
        ensures
            r@ == AccountView::fresh(account_key, now_ms),
            r@.well_formed(),
    {
        let r = AccountRuntime {
            account_key,
            phase: QuotaGuardPhase::Monitoring,
            snapshot: None,
            associated_workspace_ids: Vec::new(),
            local_turn_registry: Vec::new(),
            activity_entries: Vec::new(),
            suspended_external_engines: Vec::new(),
            monitor_healthy: true,
            last_error: None,
            updated_at: now_ms,
            breached_windows: Vec::new(),
            fired_episodes: Vec::new(),
            episode_policy: None,
            pending_local_starts: Vec::new(),
            unmatched_started_turns: Vec::new(),
            terminal_observations: Vec::new(),
            pending_interrupt_index: Vec::new(),
            fire_at_or_above_on_next_snapshot: false,
        };
        assert(r@.activity_entries =~= Seq::<ActivityView>::empty());
        r
    }

    /// Adds an entry to the activity log, which keeps the latest ones.
    pub fn push_activity(&mut self, activity: QuotaGuardActivityEntry)
        ensures
            final(self)@ == old(self)@.with_activity(activity@),
    {
        let ghost before = self@;
        self.activity_entries.push(activity);
        let ghost all = activity_views(self.activity_entries@);
        assert(all =~= before.activity_entries.push(activity@));
        if self.activity_entries.len() > ACTIVITY_LIMIT {
            let at: usize = self.activity_entries.len() - ACTIVITY_LIMIT;
            let kept = self.activity_entries.split_off(at);
            self.activity_entries = kept;
            assert(activity_views(self.activity_entries@) =~= all.skip(at as int));
        }
    }

    /// Records the pending interrupt of a turn, in place of an earlier one.
    pub fn insert_pending_interrupt(&mut self, pending: PendingInterrupt)
        requires
            unique_interrupts(old(self)@.pending_interrupt_index),
        ensures
            unique_interrupts(final(self)@.pending_interrupt_index),
            ordered_interrupts(old(self)@.pending_interrupt_index) ==> ordered_interrupts(
                final(self)@.pending_interrupt_index,
            ),
            interrupts_by_turn(final(self)@.pending_interrupt_index) == interrupts_by_turn(
                old(self)@.pending_interrupt_index,
            ).insert(pending.turn.id(), pending),
            final(self)@ == (AccountView {
                pending_interrupt_index: final(self)@.pending_interrupt_index,
                ..old(self)@
            }),
    {
        let ghost before = self.pending_interrupt_index@;
        self.remove_pending_interrupt(&pending.turn);
        let ghost removed = self.pending_interrupt_index@;
        proof {
            lemma_interrupts_lookup(removed);
            if exists|i: int|
                0 <= i < removed.len() && (#[trigger] removed[i]).turn.id() == pending.turn.id() {
                assert(interrupts_by_turn(removed).dom().contains(pending.turn.id()));
            }
        }
        place_interrupt(&mut self.pending_interrupt_index, pending);
        proof {
            interrupts_stay_ordered(removed, pending);
            lemma_interrupt_added(removed, pending);
            assert(interrupts_by_turn(removed).insert(pending.turn.id(), pending)
                =~= interrupts_by_turn(before).insert(pending.turn.id(), pending));
        }
    }

    /// Forgets the pending interrupt of a turn.
    pub fn remove_pending_interrupt(&mut self, turn: &TurnKey)
        requires
            unique_interrupts(old(self)@.pending_interrupt_index),
        ensures
            unique_interrupts(final(self)@.pending_interrupt_index),
            ordered_interrupts(old(self)@.pending_interrupt_index) ==> ordered_interrupts(
                final(self)@.pending_interrupt_index,
            ),
            interrupts_by_turn(final(self)@.pending_interrupt_index) == interrupts_by_turn(
                old(self)@.pending_interrupt_index,
            ).remove(turn.id()),
            final(self)@ == (AccountView {
                pending_interrupt_index: final(self)@.pending_interrupt_index,
                ..old(self)@
            }),
    {
        let ghost before = self.pending_interrupt_index@;
        proof {
            lemma_interrupts_lookup(before);
        }
        let mut i: usize = 0;
        while i < self.pending_interrupt_index.len()
            invariant
                i <= self.pending_interrupt_index@.len(),
                self.pending_interrupt_index@ == before,
                self@ == old(self)@,
                unique_interrupts(before),
                forall|k: int| 0 <= k < i ==> (#[trigger] before[k]).turn.id() != turn.id(),
            decreases self.pending_interrupt_index@.len() - i,
        {
            if self.pending_interrupt_index[i].turn.same_id(turn) {
                self.pending_interrupt_index.remove(i);
                let ghost after = self.pending_interrupt_index@;
                proof {
                    assert forall|a: int, b: int| 0 <= a < b < after.len() implies (
                    #[trigger] after[a]).turn.id() != (#[trigger] after[b]).turn.id() by {
                        let a2 = if a < i { a } else { a + 1 };
                        let b2 = if b < i { b } else { b + 1 };
                        assert(before[a2].turn.id() != before[b2].turn.id());
                    }
                    if ordered_interrupts(before) {
                        assert forall|a: int, b: int| 0 <= a < b < after.len() implies precedes(
                            (#[trigger] after[a]).turn.id(),
                            (#[trigger] after[b]).turn.id(),
                        ) by {
                            let a2 = if a < i { a } else { a + 1 };
                            let b2 = if b < i { b } else { b + 1 };
                            assert(precedes(before[a2].turn.id(), before[b2].turn.id()));
                        }
                    }
                    lemma_interrupts_lookup(after);
                    lemma_interrupts_lookup(before);
                    lemma_removed(before, after, i as int);
                }
                return ;
            }
            i += 1;
        }
        proof {
            lemma_interrupts_lookup(before);
            assert(!interrupts_by_turn(before).dom().contains(turn.id()));
            assert(interrupts_by_turn(before) =~= interrupts_by_turn(before).remove(turn.id()));
        }
    }

    /// Keeps a started turn until its pending start is known; fails where the buffer is full.
    pub fn push_unmatched_started_turn(&mut self, value: UnmatchedStartedTurn) -> (r: Result<
        (),
        String,
    >)
        ensures
            r is Ok <==> old(self)@.unmatched_started_turns.len() < PROVISIONAL_LIMIT,
            r is Ok ==> final(self)@ == (AccountView {
                unmatched_started_turns: old(self)@.unmatched_started_turns.push(value),
                ..old(self)@
            }),
            r is Err ==> final(self)@ == old(self)@ && r->Err_0@ == UNMATCHED_FULL@,
    {
        if self.unmatched_started_turns.len() >= PROVISIONAL_LIMIT {
            return Err(UNMATCHED_FULL.to_owned());
        }
        self.unmatched_started_turns.push(value);
        Ok(())
    }

    /// Keeps the end of a turn that is unmatched; fails where the buffer is full.
    pub fn push_terminal_observation(&mut self, value: TerminalObservation) -> (r: Result<
        (),
        String,
    >)
        ensures
            r is Ok <==> old(self)@.terminal_observations.len() < PROVISIONAL_LIMIT,
            r is Ok ==> final(self)@ == (AccountView {
                terminal_observations: old(self)@.terminal_observations.push(value),
                ..old(self)@
            }),
            r is Err ==> final(self)@ == old(self)@ && r->Err_0@ == TERMINAL_FULL@,
    {
        if self.terminal_observations.len() >= PROVISIONAL_LIMIT {
            return Err(TERMINAL_FULL.to_owned());
        }
        self.terminal_observations.push(value);
        Ok(())
    }
}

/// Why a started turn was not kept.
pub const UNMATCHED_FULL: &'static str = "unmatched started turn buffer is full";

/// Why the end of a turn was not kept.
pub const TERMINAL_FULL: &'static str = "terminal observation buffer is full";

proof fn lemma_interrupt_added(pending: Seq<PendingInterrupt>, request: PendingInterrupt)
    requires
        unique_interrupts(pending),
        forall|i: int|
            0 <= i < pending.len() ==> (#[trigger] pending[i]).turn.id() != request.turn.id(),
    ensures
        interrupts_by_turn(with_interrupt(pending, request)) == interrupts_by_turn(
            pending,
        ).insert(request.turn.id(), request),
{
    let behind = |known: PendingInterrupt| precedes(request.turn.id(), known.turn.id());
    let at = lemma_placed(pending, request, behind);
    let after = with_interrupt(pending, request);
    interrupts_stay_ordered(pending, request);
    lemma_interrupts_lookup(after);
    assert(after.remove(at) =~= pending);
    assert(after[at] == request);
    lemma_removed(after, pending, at);
    assert(interrupts_by_turn(after).dom().contains(request.turn.id()));
    assert(interrupts_by_turn(after) =~= interrupts_by_turn(pending).insert(
        request.turn.id(),
        request,
    ));
}

proof fn lemma_removed(before: Seq<PendingInterrupt>, after: Seq<PendingInterrupt>, at: int)
    requires
        0 <= at < before.len(),
        after == before.remove(at),
        unique_interrupts(before),
        unique_interrupts(after),
    ensures
        interrupts_by_turn(after) == interrupts_by_turn(before).remove(before[at].turn.id()),
{
    lemma_interrupts_lookup(before);
    lemma_interrupts_lookup(after);
    let left = interrupts_by_turn(after);
    let right = interrupts_by_turn(before).remove(before[at].turn.id());
    assert forall|id: Seq<char>| left.dom().contains(id) <==> right.dom().contains(id) by {
        if left.dom().contains(id) {
            let k = choose|k: int| 0 <= k < after.len() && (#[trigger] after[k]).turn.id() == id;
            let k2 = if k < at { k } else { k + 1 };
            assert(before[k2] == after[k]);
            assert(before[k2].turn.id() != before[at].turn.id());
            assert(interrupts_by_turn(before).dom().contains(id));
        }
        if right.dom().contains(id) {
            assert(interrupts_by_turn(before).dom().contains(id));
            let k2 = choose|k: int| 0 <= k < before.len() && (#[trigger] before[k]).turn.id() == id;
            let k = if k2 < at { k2 } else { k2 - 1 };
            assert(after[k] == before[k2]);
        }
    }
    assert forall|id: Seq<char>| left.dom().contains(id) implies left[id] == right[id] by {
        let k = choose|k: int| 0 <= k < after.len() && (#[trigger] after[k]).turn.id() == id;
        let k2 = if k < at { k } else { k + 1 };
        assert(before[k2] == after[k]);
        assert(before[k2].turn.id() != before[at].turn.id());
    }
    assert(left =~= right);
}

/// Whether the text does not hold the character that separates the parts of an identity.
pub open spec fn unseparated(text: Seq<char>) -> bool {
    forall|i: int| 0 <= i < text.len() ==> #[trigger] text[i] != '\u{1f}'
}

proof fn lemma_first_part(a: Seq<char>, rest_a: Seq<char>, b: Seq<char>, rest_b: Seq<char>)
    requires
        unseparated(a),
        unseparated(b),
        a + seq!['\u{1f}'] + rest_a == b + seq!['\u{1f}'] + rest_b,
    ensures
        a == b,
        rest_a == rest_b,
{
    let left = a + seq!['\u{1f}'] + rest_a;
    let right = b + seq!['\u{1f}'] + rest_b;
    assert(left[a.len() as int] == '\u{1f}');
    assert(right[b.len() as int] == '\u{1f}');
    if a.len() < b.len() {
        assert(right[a.len() as int] == b[a.len() as int]);
    }
    if b.len() < a.len() {
        assert(left[b.len() as int] == a[b.len() as int]);
    }
    assert(a.len() == b.len());
    assert forall|i: int| 0 <= i < a.len() implies a[i] == b[i] by {
        assert(left[i] == a[i]);
        assert(right[i] == b[i]);
    }
    assert(a =~= b);
    assert(left.len() == a.len() + 1 + rest_a.len());
    assert(right.len() == b.len() + 1 + rest_b.len());
    assert forall|i: int| 0 <= i < rest_a.len() implies rest_a[i] == rest_b[i] by {
        assert(left[a.len() + 1 + i] == rest_a[i]);
        assert(right[a.len() + 1 + i] == rest_b[i]);
    }
    assert(rest_a =~= rest_b);
}

/// Turns have the same identifying text only where they are the same, as long as no part holds
/// the separator.
pub proof fn identities_are_unique(a: TurnKey, b: TurnKey)
    requires
        unseparated(a.session_epoch@) && unseparated(a.workspace_id@) && unseparated(a.thread_id@),
        unseparated(b.session_epoch@) && unseparated(b.workspace_id@) && unseparated(b.thread_id@),
    ensures
        a.id() == b.id() <==> a.same(b),
{
    if a.id() == b.id() {
        let sep = seq!['\u{1f}'];
        let a2 = a.thread_id@ + sep + a.turn_id@;
        let b2 = b.thread_id@ + sep + b.turn_id@;
        let a1 = a.workspace_id@ + sep + a2;
        let b1 = b.workspace_id@ + sep + b2;
        assert(a.id() =~= a.session_epoch@ + sep + a1);
        assert(b.id() =~= b.session_epoch@ + sep + b1);
        lemma_first_part(a.session_epoch@, a1, b.session_epoch@, b1);
        lemma_first_part(a.workspace_id@, a2, b.workspace_id@, b2);
        lemma_first_part(a.thread_id@, a.turn_id@, b.thread_id@, b.turn_id@);
    }
}

} // verus!
