//! Whose account it is, what a reading of it opens, and how it is established and checked, stated
//! on what the answers and the readings hold.

use crate::bootstrap::{
    bootstraps, revalidates, Bootstrap, BootstrapAction, BootstrapStage, Revalidation,
    RevalidationStage, StageView,
};
use crate::coordinator::CoordinatorView;
use crate::evaluator::evaluated;
use crate::gate::ProcessPolicy;
use crate::identity::{
    active_turn, answered_thread, hex, sha256_of, spec_account_key, strict_identity,
};
use crate::json::{Json, JsonView};
use crate::model::{
    EpisodeView, QuotaGuardPhase, QuotaWindowKind, RateLimitWindow, SnapshotView, TurnKey,
};
use crate::parser::rate_limits_in;
use crate::reducer::ReducerEvent;
use crate::settings::QuotaGuardSettings;
use crate::text::{lowercase, trimmed};
use vstd::prelude::*;
use vstd::utf8::*;

verus! {

/// The owner of an account is its address, without white space around it and in small letters, in
/// an answer or in the account itself; where there is no address, or a blank one, there is no
/// owner.
pub proof fn the_owner_is_the_address(value: JsonView, account: JsonView)
    requires
        value.get("result"@) matches Some(result) ==> result.get("account"@) == Some(account),
        value.get("result"@) is None ==> value.get("account"@) == Some(account),
    ensures
        match account.get("email"@) {
            Some(JsonView::Text(email)) => {
                &&& trimmed(email).len() > 0 ==> strict_identity(value) == Some(
                    lowercase(trimmed(email)),
                )
                &&& trimmed(email).len() == 0 ==> strict_identity(value) is None
            },
            _ => strict_identity(value) is None,
        },
{
}

/// The active turn of a thread is read under any of its four names, the names for the active turn
/// before those for a turn, and else from the result, the parameters, the thread and the turn, in
/// this order.
pub proof fn the_active_turn_is_read_under_each_name(value: JsonView, turn: Seq<char>)
    ensures
        ({
            let text = Some(JsonView::Text(turn));
            let none = |key: Seq<char>| value.get(key) is None;
            &&& value.get("activeTurnId"@) == text ==> active_turn(value) == Some(turn)
            &&& none("activeTurnId"@) && value.get("active_turn_id"@) == text ==> active_turn(value)
                == Some(turn)
            &&& none("activeTurnId"@) && none("active_turn_id"@) && value.get("turnId"@) == text
                ==> active_turn(value) == Some(turn)
            &&& none("activeTurnId"@) && none("active_turn_id"@) && none("turnId"@) && value.get(
                "turn_id"@,
            ) == text ==> active_turn(value) == Some(turn)
            &&& none("activeTurnId"@) && none("active_turn_id"@) && none("turnId"@) && none(
                "turn_id"@,
            ) ==> {
                &&& value.get("result"@) is Some && active_turn(value.get("result"@)->0) == Some(
                    turn,
                ) ==> active_turn(value) == Some(turn)
                &&& none("result"@) && value.get("params"@) is Some && active_turn(
                    value.get("params"@)->0,
                ) == Some(turn) ==> active_turn(value) == Some(turn)
                &&& none("result"@) && none("params"@) && value.get("thread"@) is Some
                    && active_turn(value.get("thread"@)->0) == Some(turn) ==> active_turn(value)
                    == Some(turn)
                &&& none("result"@) && none("params"@) && none("thread"@) && value.get("turn"@)
                    is Some && active_turn(value.get("turn"@)->0) == Some(turn) ==> active_turn(
                    value,
                ) == Some(turn)
                &&& none("result"@) && none("params"@) && none("thread"@) && none("turn"@)
                    ==> active_turn(value) is None
            }
        }),
{
    let keys = seq!["activeTurnId"@, "active_turn_id"@, "turnId"@, "turn_id"@];
    lemma_first_of_four(value, keys);
    reveal_with_fuel(crate::identity::nested_text, 2);
}

proof fn lemma_first_of_four(value: JsonView, keys: Seq<Seq<char>>)
    requires
        keys.len() == 4,
    ensures
        crate::identity::first_text(value, keys) == (match crate::identity::member_text(
            value,
            keys[0],
        ) {
            Some(text) => Some(text),
            None => match crate::identity::member_text(value, keys[1]) {
                Some(text) => Some(text),
                None => match crate::identity::member_text(value, keys[2]) {
                    Some(text) => Some(text),
                    None => crate::identity::member_text(value, keys[3]),
                },
            },
        }),
{
    reveal_with_fuel(crate::identity::first_text, 5);
}

/// The thread of an answer is read under either of its names, in itself and else in its result.
pub proof fn the_answered_thread_is_read_under_each_name(value: JsonView, thread: Seq<char>)
    ensures
        ({
            let text = Some(JsonView::Text(thread));
            let none = |key: Seq<char>| value.get(key) is None;
            &&& value.get("threadId"@) == text ==> answered_thread(value) == Some(thread)
            &&& none("threadId"@) && value.get("thread_id"@) == text ==> answered_thread(value)
                == Some(thread)
            &&& none("threadId"@) && none("thread_id"@) && value.get("result"@) is Some
                && answered_thread(value.get("result"@)->0) == Some(thread) ==> answered_thread(
                value,
            ) == Some(thread)
            &&& none("threadId"@) && none("thread_id"@) && none("result"@) && none("params"@)
                && none("thread"@) && none("turn"@) ==> answered_thread(value) is None
        }),
{
    let keys = seq!["threadId"@, "thread_id"@];
    assert(keys.drop_first() =~= seq!["thread_id"@]);
    reveal_with_fuel(crate::identity::first_text, 3);
    reveal_with_fuel(crate::identity::nested_text, 2);
}

proof fn lemma_in_sum<T>(a: Seq<T>, b: Seq<T>, t: T)
    ensures
        (a + b).contains(t) <==> a.contains(t) || b.contains(t),
{
    if a.contains(t) {
        let k = choose|k: int| 0 <= k < a.len() && a[k] == t;
        assert((a + b)[k] == t);
    }
    if b.contains(t) {
        let k = choose|k: int| 0 <= k < b.len() && b[k] == t;
        assert((a + b)[a.len() + k] == t);
    }
    if (a + b).contains(t) {
        let k = choose|k: int| 0 <= k < (a + b).len() && (a + b)[k] == t;
        if k < a.len() {
            assert(a[k] == t);
        } else {
            assert(b[k - a.len()] == t);
        }
    }
}

/// An episode of a threshold is opened exactly where the window's use is at its own threshold and
/// was below it, or where the window was reset in between, unless it has been opened already. Each
/// window is held against its own threshold, and an episode names both and the reset.
pub proof fn thresholds_open_their_own_episodes(
    account_key: Seq<char>,
    current: SnapshotView,
    previous: SnapshotView,
    settings: QuotaGuardSettings,
    fired: Seq<EpisodeView>,
    is_full_read: bool,
)
    ensures
        ({
            let triggered = evaluated(
                account_key,
                current,
                Some(previous),
                settings,
                fired,
                is_full_read,
            ).triggered;
            let opens = |window: Option<RateLimitWindow>, known: Option<RateLimitWindow>, floor: u8|
                window is Some && known is Some && window->0.used_percent >= floor && (
                known->0.used_percent < floor || known->0.reset_at != window->0.reset_at);
            &&& current.primary is Some ==> {
                let episode = EpisodeView::Threshold {
                    account_key,
                    window: QuotaWindowKind::Primary,
                    threshold_percent: settings.primary_threshold_percent,
                    resets_at: current.primary->0.reset_at,
                };
                triggered.contains(episode) <==> opens(
                    current.primary,
                    previous.primary,
                    settings.primary_threshold_percent,
                ) && !fired.contains(episode)
            }
            &&& current.secondary is Some ==> {
                let episode = EpisodeView::Threshold {
                    account_key,
                    window: QuotaWindowKind::Secondary,
                    threshold_percent: settings.secondary_threshold_percent,
                    resets_at: current.secondary->0.reset_at,
                };
                triggered.contains(episode) <==> opens(
                    current.secondary,
                    previous.secondary,
                    settings.secondary_threshold_percent,
                ) && !fired.contains(episode)
            }
        }),
{
    let primary = crate::evaluator::kind_evaluation(
        account_key,
        QuotaWindowKind::Primary,
        settings.primary_threshold_percent,
        current,
        Some(previous),
        fired,
    ).triggered;
    let secondary = crate::evaluator::kind_evaluation(
        account_key,
        QuotaWindowKind::Secondary,
        settings.secondary_threshold_percent,
        current,
        Some(previous),
        fired,
    ).triggered;
    let hard = EpisodeView::HardLimit { account_key };
    let last = if current.rate_limit_reached_type is Some && !fired.contains(hard) {
        seq![hard]
    } else {
        seq![]
    };
    if let Some(window) = current.primary {
        let episode = EpisodeView::Threshold {
            account_key,
            window: QuotaWindowKind::Primary,
            threshold_percent: settings.primary_threshold_percent,
            resets_at: window.reset_at,
        };
        lemma_in_sum(primary, secondary, episode);
        lemma_in_sum(primary + secondary, last, episode);
        assert(seq![episode][0] == episode);
    }
    if let Some(window) = current.secondary {
        let episode = EpisodeView::Threshold {
            account_key,
            window: QuotaWindowKind::Secondary,
            threshold_percent: settings.secondary_threshold_percent,
            resets_at: window.reset_at,
        };
        lemma_in_sum(primary, secondary, episode);
        lemma_in_sum(primary + secondary, last, episode);
        assert(seq![episode][0] == episode);
    }
}

/// A window is breached exactly where its use is at its own threshold, whatever was known before.
pub proof fn breached_windows_are_at_their_threshold(
    account_key: Seq<char>,
    current: SnapshotView,
    previous: Option<SnapshotView>,
    settings: QuotaGuardSettings,
    fired: Seq<EpisodeView>,
    is_full_read: bool,
)
    ensures
        ({
            let breached = evaluated(
                account_key,
                current,
                previous,
                settings,
                fired,
                is_full_read,
            ).breached_windows;
            &&& breached.contains(QuotaWindowKind::Primary) <==> (
            current.primary matches Some(window) && window.used_percent
                >= settings.primary_threshold_percent)
            &&& breached.contains(QuotaWindowKind::Secondary) <==> (
            current.secondary matches Some(window) && window.used_percent
                >= settings.secondary_threshold_percent)
            &&& !breached.contains(QuotaWindowKind::HardLimit)
        }),
{
    let a = crate::evaluator::kind_evaluation(
        account_key,
        QuotaWindowKind::Primary,
        settings.primary_threshold_percent,
        current,
        previous,
        fired,
    ).breached_windows;
    let b = crate::evaluator::kind_evaluation(
        account_key,
        QuotaWindowKind::Secondary,
        settings.secondary_threshold_percent,
        current,
        previous,
        fired,
    ).breached_windows;
    lemma_in_sum(a, b, QuotaWindowKind::Primary);
    lemma_in_sum(a, b, QuotaWindowKind::Secondary);
    lemma_in_sum(a, b, QuotaWindowKind::HardLimit);
    assert(seq![QuotaWindowKind::Primary][0] == QuotaWindowKind::Primary);
    assert(seq![QuotaWindowKind::Secondary][0] == QuotaWindowKind::Secondary);
}

/// An episode of a threshold that was opened is open to be opened again once its window was reset,
/// or its use has fallen more than two points below the threshold, and not before. That of the hard
/// limit is once a full reading no longer says that the limit was reached.
pub proof fn episodes_are_rearmed_by_a_reset_or_a_fall(
    account_key: Seq<char>,
    current: SnapshotView,
    previous: SnapshotView,
    settings: QuotaGuardSettings,
    fired: Seq<EpisodeView>,
    is_full_read: bool,
    resets_at: Option<i64>,
)
    ensures
        ({
            let rearmed = evaluated(
                account_key,
                current,
                Some(previous),
                settings,
                fired,
                is_full_read,
            ).rearmed;
            let eased = |
                window: Option<RateLimitWindow>,
                known: Option<RateLimitWindow>,
                floor: u8,
            |
                window is Some && ((known is Some && known->0.reset_at != window->0.reset_at)
                    || window->0.used_percent + 2 < floor);
            let primary = EpisodeView::Threshold {
                account_key,
                window: QuotaWindowKind::Primary,
                threshold_percent: settings.primary_threshold_percent,
                resets_at,
            };
            let secondary = EpisodeView::Threshold {
                account_key,
                window: QuotaWindowKind::Secondary,
                threshold_percent: settings.secondary_threshold_percent,
                resets_at,
            };
            let hard = EpisodeView::HardLimit { account_key };
            &&& rearmed.contains(primary) <==> fired.contains(primary) && eased(
                current.primary,
                previous.primary,
                settings.primary_threshold_percent,
            )
            &&& rearmed.contains(secondary) <==> fired.contains(secondary) && eased(
                current.secondary,
                previous.secondary,
                settings.secondary_threshold_percent,
            )
            &&& rearmed.contains(hard) <==> fired.contains(hard) && is_full_read
                && current.rate_limit_reached_type is None
        }),
{
    let a = crate::evaluator::kind_evaluation(
        account_key,
        QuotaWindowKind::Primary,
        settings.primary_threshold_percent,
        current,
        Some(previous),
        fired,
    ).rearmed;
    let b = crate::evaluator::kind_evaluation(
        account_key,
        QuotaWindowKind::Secondary,
        settings.secondary_threshold_percent,
        current,
        Some(previous),
        fired,
    ).rearmed;
    let hard = EpisodeView::HardLimit { account_key };
    let last = if current.rate_limit_reached_type is None && is_full_read && fired.contains(hard) {
        seq![hard]
    } else {
        seq![]
    };
    let primary = EpisodeView::Threshold {
        account_key,
        window: QuotaWindowKind::Primary,
        threshold_percent: settings.primary_threshold_percent,
        resets_at,
    };
    let secondary = EpisodeView::Threshold {
        account_key,
        window: QuotaWindowKind::Secondary,
        threshold_percent: settings.secondary_threshold_percent,
        resets_at,
    };
    crate::search::lemma_filtered(
        fired,
        |e: EpisodeView|
            crate::evaluator::same_family(
                e,
                account_key,
                QuotaWindowKind::Primary,
                settings.primary_threshold_percent,
            ),
    );
    crate::search::lemma_filtered(
        fired,
        |e: EpisodeView|
            crate::evaluator::same_family(
                e,
                account_key,
                QuotaWindowKind::Secondary,
                settings.secondary_threshold_percent,
            ),
    );
    lemma_in_sum(a, b, primary);
    lemma_in_sum(a + b, last, primary);
    lemma_in_sum(a, b, secondary);
    lemma_in_sum(a + b, last, secondary);
    lemma_in_sum(a, b, hard);
    lemma_in_sum(a + b, last, hard);
    assert(seq![hard][0] == hard);
}

/// The first full reading opens no episode of a threshold and is told apart as the baseline; a
/// later one, or one that is not full, is not.
pub proof fn the_first_full_reading_is_the_baseline(
    account_key: Seq<char>,
    current: SnapshotView,
    previous: Option<SnapshotView>,
    settings: QuotaGuardSettings,
    fired: Seq<EpisodeView>,
    is_full_read: bool,
)
    ensures
        ({
            let r = evaluated(account_key, current, previous, settings, fired, is_full_read);
            &&& r.baseline <==> previous is None && is_full_read
            &&& r.baseline ==> r.triggered.len() <= 1
            &&& current.rate_limit_reached_type is None ==> !r.triggered.contains(
                EpisodeView::HardLimit { account_key },
            )
        }),
{
    let a = crate::evaluator::kind_evaluation(
        account_key,
        QuotaWindowKind::Primary,
        settings.primary_threshold_percent,
        current,
        previous,
        fired,
    ).triggered;
    let b = crate::evaluator::kind_evaluation(
        account_key,
        QuotaWindowKind::Secondary,
        settings.secondary_threshold_percent,
        current,
        previous,
        fired,
    ).triggered;
    lemma_in_sum(a, b, EpisodeView::HardLimit { account_key });
}

/// Whatever fails while an account is established ends it with the reason, and nothing is changed.
pub proof fn what_fails_ends_the_establishing(
    bootstrap: Bootstrap,
    before: CoordinatorView,
    reason: String,
    now_ms: i64,
    stage: StageView,
    after: CoordinatorView,
    action: BootstrapAction,
)
    requires
        bootstraps(bootstrap, before, Err(reason), now_ms, stage, after, action),
    ensures
        after == before,
        stage == StageView::Ended,
        (action matches BootstrapAction::Failed { message } && message@ == reason@),
{
}

/// The limits of an account that is being established are read in full, over the ones that are
/// known, and applied; limits that cannot be read end it.
pub proof fn establishing_reads_the_limits_in_full(
    bootstrap: Bootstrap,
    before: CoordinatorView,
    value: Json,
    now_ms: i64,
    stage: StageView,
    after: CoordinatorView,
    action: BootstrapAction,
)
    requires
        bootstraps(bootstrap, before, Ok(value), now_ms, stage, after, action),
        bootstrap.stage == BootstrapStage::Limits,
    ensures
        ({
            let known: Option<SnapshotView> = if before.runtime.account is Some
                && before.runtime.account->0.snapshot is Some {
                Some(before.runtime.account->0.snapshot->0@)
            } else {
                None
            };
            let read = rate_limits_in(value@, known, now_ms);
            &&& after == before
            &&& read is Ok ==> stage == StageView::Applying && (
            action matches BootstrapAction::Apply {
                event: ReducerEvent::Snapshot { snapshot, full_read, verification, now_ms: at },
            } && snapshot@ == read->Ok_0 && full_read && !verification && at == now_ms)
            &&& read is Err ==> stage == StageView::Ended && (
            action matches BootstrapAction::Failed { message } && message@ == read->Err_0)
        }),
{
}

/// Once the limits are applied, every turn that is owned or to be interrupted is checked, one after
/// the other, in their order; then the state is written.
pub proof fn establishing_checks_every_turn(
    bootstrap: Bootstrap,
    before: CoordinatorView,
    value: Json,
    now_ms: i64,
    stage: StageView,
    after: CoordinatorView,
    action: BootstrapAction,
)
    requires
        bootstraps(bootstrap, before, Ok(value), now_ms, stage, after, action),
        bootstrap.stage == BootstrapStage::Applying,
        before.runtime.account is Some,
    ensures
        ({
            let account = before.runtime.account->0;
            let owned = account.local_turn_registry;
            let pending = account.pending_interrupt_index;
            &&& after.gate == before.gate
            &&& after.runtime.account is Some
            &&& after.runtime.account->0.local_turn_registry == owned
            &&& owned.len() + pending.len() == 0 ==> stage == StageView::Writing && action
                == BootstrapAction::Persist
            &&& owned.len() > 0 ==> action == (BootstrapAction::ReadThread { turn: owned[0] })
                && stage->turn == owned[0] && stage->Checking_rest.len() == owned.len()
                + pending.len() - 1
            &&& owned.len() == 0 && pending.len() > 0 ==> action == (BootstrapAction::ReadThread {
                turn: pending[0].turn,
            }) && stage->Checking_rest.len() == pending.len() - 1
            &&& forall|i: int|
                1 <= i < owned.len() ==> stage->Checking_rest[i - 1] == #[trigger] owned[i]
            &&& forall|i: int|
                0 <= i < pending.len() && 0 < i + owned.len() ==> stage->Checking_rest[owned.len()
                    + i - 1] == (#[trigger] pending[i]).turn
        }),
{
}

/// A turn whose thread says that it is active stays; one whose thread names another turn or none
/// has ended meanwhile, which is applied before the next turn is checked. After the last one the
/// state is written.
pub proof fn a_turn_that_is_gone_is_ended(
    bootstrap: Bootstrap,
    turn: TurnKey,
    rest: Vec<TurnKey>,
    before: CoordinatorView,
    value: Json,
    now_ms: i64,
    stage: StageView,
    after: CoordinatorView,
    action: BootstrapAction,
)
    requires
        bootstraps(bootstrap, before, Ok(value), now_ms, stage, after, action),
        bootstrap.stage == (BootstrapStage::Checking { turn, rest }),
    ensures
        ({
            let active = active_turn(value@) == Some(turn.turn_id@);
            &&& after == before
            &&& !active ==> stage == (StageView::Ending { rest: rest@ }) && (
            action matches BootstrapAction::Apply {
                event: ReducerEvent::TurnTerminal { turn: ended, status, error, now_ms: at },
            } && ended == turn && status@ == "reconciled"@ && error is None && at == now_ms)
            &&& active && rest@.len() == 0 ==> stage == StageView::Writing && action
                == BootstrapAction::Persist
            &&& active && rest@.len() > 0 ==> action == (BootstrapAction::ReadThread {
                turn: rest@[0],
            }) && stage == (StageView::Checking { turn: rest@[0], rest: rest@.drop_first() })
        }),
{
}

/// Once the state is written the workspace is admitted in its session, where the process is open
/// and the workspace known, and the establishing is at its end.
pub proof fn establishing_ends_with_the_admission(
    bootstrap: Bootstrap,
    before: CoordinatorView,
    value: Json,
    now_ms: i64,
    stage: StageView,
    after: CoordinatorView,
    action: BootstrapAction,
)
    requires
        bootstraps(bootstrap, before, Ok(value), now_ms, stage, after, action),
        bootstrap.stage == BootstrapStage::Writing,
        before.gate.policy == ProcessPolicy::EnabledOpen,
        before.gate.permits.dom().contains((bootstrap.session_epoch@, bootstrap.workspace_id@)),
    ensures
        stage == StageView::Ended,
        action is Finished,
        after.gate.permits[(bootstrap.session_epoch@, bootstrap.workspace_id@)],
        after.gate.policy == ProcessPolicy::EnabledOpen,
        after.runtime == before.runtime,
{
}

/// A check of an account that is monitored reads the owner first and then the limits, in full. An
/// owner that is another, or none, ends the check; limits that can be read are applied. After that
/// the next check is due in five minutes, unless the limiter was turned off and on meanwhile.
pub proof fn a_check_reads_the_owner_and_then_the_limits(
    check: Revalidation,
    before: CoordinatorView,
    value: Json,
    now_ms: i64,
    stage: RevalidationStage,
    after: CoordinatorView,
    action: BootstrapAction,
)
    requires
        revalidates(check, before, Ok(value), now_ms, stage, after, action),
        now_ms <= i64::MAX - 300_000,
    ensures
        ({
            let passes = before.check_error(check.workspace_id@, strict_identity(value@)) is None;
            let known: Option<SnapshotView> = if before.runtime.account is Some
                && before.runtime.account->0.snapshot is Some {
                Some(before.runtime.account->0.snapshot->0@)
            } else {
                None
            };
            let read = rate_limits_in(value@, known, now_ms);
            &&& check.stage == RevalidationStage::Identity ==> {
                &&& after == before
                &&& passes ==> stage == RevalidationStage::Limits && action
                    == BootstrapAction::ReadRateLimits
                &&& !passes ==> stage == RevalidationStage::Ended && action is Failed
            }
            &&& check.stage == RevalidationStage::Limits ==> {
                &&& after == before
                &&& read is Err ==> stage == RevalidationStage::Ended && action is Failed
                &&& read is Ok ==> stage == RevalidationStage::Applying && (
                action matches BootstrapAction::Apply {
                    event: ReducerEvent::Snapshot { snapshot, full_read, .. },
                } && snapshot@ == read->Ok_0 && full_read)
            }
            &&& check.stage == RevalidationStage::Applying ==> {
                let due = before.runtime.lifecycle_generation == check.generation
                    && before.healthy_due is None && (
                before.runtime.account matches Some(account) && account.phase
                    == QuotaGuardPhase::Monitoring);
                &&& stage == RevalidationStage::Ended
                &&& after.runtime == before.runtime
                &&& due ==> action == (BootstrapAction::Finished {
                    due: Some((now_ms + 300_000) as i64),
                }) && after.healthy_due == Some((now_ms + 300_000) as i64)
                &&& !due ==> action == (BootstrapAction::Finished { due: None })
                    && after.healthy_due == before.healthy_due
            }
        }),
{
}

/// An account is known by the digest of its home and its owner, with nothing but a zero byte
/// between them, each byte as two of the sixteen digits.
pub proof fn the_key_of_an_account_is_a_digest_in_digits(home: Seq<char>, owner: Seq<char>, i: int)
    ensures
        ({
            let digest = sha256_of(encode_utf8(home) + seq![0u8] + encode_utf8(owner));
            let key = spec_account_key(home, owner);
            let digits = "0123456789abcdef"@;
            0 <= i < digest.len() ==> {
                &&& key.len() == 2 * digest.len()
                &&& key[2 * i] == digits[digest[i] as int / 16]
                &&& key[2 * i + 1] == digits[digest[i] as int % 16]
            }
        }),
{
    let digest = sha256_of(encode_utf8(home) + seq![0u8] + encode_utf8(owner));
    if 0 <= i < digest.len() {
        lemma_hex(digest, i);
    }
}

proof fn lemma_hex(bytes: Seq<u8>, i: int)
    requires
        0 <= i < bytes.len(),
    ensures
        hex(bytes).len() == 2 * bytes.len(),
        hex(bytes)[2 * i] == "0123456789abcdef"@[bytes[i] as int / 16],
        hex(bytes)[2 * i + 1] == "0123456789abcdef"@[bytes[i] as int % 16],
    decreases bytes.len(),
{
    reveal_strlit("0123456789abcdef");
    let before = bytes.drop_last();
    if before.len() > 0 {
        lemma_hex(before, if i < before.len() { i } else { 0 });
    } else {
        assert(hex(before).len() == 0);
    }
    let last = bytes.last();
    assert(hex(bytes) == hex(before) + seq![
        crate::identity::hex_digit((last / 16) as u8),
        crate::identity::hex_digit((last % 16) as u8),
    ]);
    if i < before.len() {
        assert(before[i] == bytes[i]);
    }
}

} // verus!
