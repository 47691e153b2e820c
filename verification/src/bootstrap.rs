//! Establishing the account of a workspace, and checking it again: the answers of the server and
//! the outcomes of what was done come in, and what is to be done next comes out.

use crate::coordinator::{
    associates, closed, established, establishes, is_enable, is_reconciled_end, reads_limits,
    scheduling, Coordinator, CoordinatorView, BINDING_MISSING,
};
use crate::gate::ProcessPolicy;
use crate::identity::{active_turn, strict_account_identity, strict_identity};
use crate::json::Json;
use crate::model::{text_view, PendingInterrupt, RuntimeView, TurnKey};
use crate::reducer::ReducerEvent;
use vstd::prelude::*;
use vstd::string::*;

verus! {

/// What has to be done next for a workspace. Its outcome is handed back.
pub enum BootstrapAction {
    /// The owner of the account is to be read.
    ReadIdentity,
    /// The event is to be applied.
    Apply { event: ReducerEvent },
    /// The limits of the account are to be read in full.
    ReadRateLimits,
    /// The thread of the turn is to be read.
    ReadThread { turn: TurnKey },
    /// The state is to be written.
    Persist,
    /// All is done. `due` is the time of the next check, where one has to be set up.
    Finished { due: Option<i64> },
    /// The account cannot be established.
    Failed { message: String },
}

/// How far the establishing of an account is.
#[derive(Debug, PartialEq, Eq)]
pub enum BootstrapStage {
    /// The owner is being read.
    Identity,
    /// The account is being enabled.
    Enabling,
    /// The limits are being read.
    Limits,
    /// The limits are being applied.
    Applying,
    /// A thread is being read, to see whether the turn is active; other turns follow.
    Checking { turn: TurnKey, rest: Vec<TurnKey> },
    /// A turn is being ended; other turns follow.
    Ending { rest: Vec<TurnKey> },
    /// The state is being written.
    Writing,
    /// It has ended.
    Ended,
}

/// How far the establishing of an account is.
#[verifier::ext_equal]
pub enum StageView {
    Identity,
    Enabling,
    Limits,
    Applying,
    Checking { turn: TurnKey, rest: Seq<TurnKey> },
    Ending { rest: Seq<TurnKey> },
    Writing,
    Ended,
}

impl View for BootstrapStage {
    type V = StageView;

    open spec fn view(&self) -> StageView {
        match *self {
            BootstrapStage::Identity => StageView::Identity,
            BootstrapStage::Enabling => StageView::Enabling,
            BootstrapStage::Limits => StageView::Limits,
            BootstrapStage::Applying => StageView::Applying,
            BootstrapStage::Checking { turn, rest } => StageView::Checking { turn, rest: rest@ },
            BootstrapStage::Ending { rest } => StageView::Ending { rest: rest@ },
            BootstrapStage::Writing => StageView::Writing,
            BootstrapStage::Ended => StageView::Ended,
        }
    }
}

/// The establishing of the account of a workspace.
#[derive(Debug, PartialEq, Eq)]
pub struct Bootstrap {
    pub workspace_id: String,
    /// The epoch of the session that served the workspace at the beginning.
    pub session_epoch: String,
    pub stage: BootstrapStage,
}

/// The turns that the account owns, and behind them those that it is interrupting.
pub open spec fn owned_turns(runtime: RuntimeView) -> Seq<TurnKey> {
    match runtime.account {
        Some(account) => account.local_turn_registry + account.pending_interrupt_index.map_values(
            |pending: PendingInterrupt| pending.turn,
        ),
        None => seq![],
    }
}

/// Whether the stage and the action go on with the turns: the first is checked, and the state is
/// written where there is none.
pub open spec fn goes_on(turns: Seq<TurnKey>, stage: StageView, action: BootstrapAction) -> bool {
    if turns.len() == 0 {
        stage == StageView::Writing && action == BootstrapAction::Persist
    } else {
        &&& stage == (StageView::Checking { turn: turns[0], rest: turns.drop_first() })
        &&& action == (BootstrapAction::ReadThread { turn: turns[0] })
    }
}

/// Whether the establishing has failed for this reason.
pub open spec fn fails(reason: Seq<char>, stage: StageView, action: BootstrapAction) -> bool {
    stage == StageView::Ended && (action matches BootstrapAction::Failed { message } && message@
        == reason)
}

/// Whether a step leads from one stage and coordinator to another stage and coordinator, with
/// this action. `outcome` is what came of the last action.
pub open spec fn bootstraps(
    bootstrap: Bootstrap,
    before: CoordinatorView,
    outcome: Result<Json, String>,
    now_ms: i64,
    stage: StageView,
    after: CoordinatorView,
    action: BootstrapAction,
) -> bool {
    match outcome {
        Err(reason) => after == before && fails(reason@, stage, action),
        Ok(value) => match bootstrap.stage@ {
            StageView::Identity => after == before && match establishes(
                before,
                bootstrap.workspace_id@,
                strict_identity(value@),
            ) {
                Err(reason) => fails(reason, stage, action),
                Ok(None) => stage == StageView::Limits && action == BootstrapAction::ReadRateLimits,
                Ok(Some(key)) => stage == StageView::Enabling && (
                action matches BootstrapAction::Apply { event } && is_enable(event, key, now_ms)),
            },
            StageView::Enabling => after == before && stage == StageView::Limits && action
                == BootstrapAction::ReadRateLimits,
            StageView::Limits => after == before && limits_lead_on(
                before,
                value,
                now_ms,
                stage,
                action,
            ),
            StageView::Applying => {
                &&& after == (CoordinatorView { runtime: after.runtime, ..before })
                &&& associates(before.runtime, bootstrap.workspace_id@, now_ms, after.runtime)
                &&& goes_on(owned_turns(after.runtime), stage, action)
            },
            StageView::Checking { turn, rest } => after == before && if active_turn(value@) == Some(
                turn.turn_id@,
            ) {
                goes_on(rest, stage, action)
            } else {
                stage == (StageView::Ending { rest }) && (
                action matches BootstrapAction::Apply { event } && is_reconciled_end(
                    event,
                    turn,
                    now_ms,
                ))
            },
            StageView::Ending { rest } => after == before && goes_on(rest, stage, action),
            StageView::Writing => {
                let (done, due) = established(
                    before,
                    bootstrap.session_epoch@,
                    bootstrap.workspace_id@,
                    now_ms,
                );
                after == done && stage == StageView::Ended && action == (
                BootstrapAction::Finished { due })
            },
            StageView::Ended => after == before && stage == StageView::Ended && action == (
            BootstrapAction::Finished { due: None }),
        },
    }
}

/// Whether limits that were read are applied next, or the establishing fails for what is wrong
/// with them.
pub open spec fn limits_lead_on(
    before: CoordinatorView,
    value: Json,
    now_ms: i64,
    stage: StageView,
    action: BootstrapAction,
) -> bool {
    match action {
        BootstrapAction::Apply { event } => stage == StageView::Applying && reads_limits(
            before.runtime,
            value@,
            true,
            false,
            now_ms,
            Ok(event),
        ),
        BootstrapAction::Failed { message } => stage == StageView::Ended && reads_limits(
            before.runtime,
            value@,
            true,
            false,
            now_ms,
            Err(message),
        ),
        _ => false,
    }
}

/// The turns that the account owns, and behind them those that it is interrupting.
fn collect_turns(coordinator: &Coordinator) -> (r: Vec<TurnKey>)
    ensures
        r@ == owned_turns(coordinator@.runtime),
{
    let mut turns: Vec<TurnKey> = Vec::new();
    if let Some(account) = &coordinator.runtime.account {
        let mut i: usize = 0;
        while i < account.local_turn_registry.len()
            invariant
                i <= account.local_turn_registry@.len(),
                turns@ == account.local_turn_registry@.take(i as int),
            decreases account.local_turn_registry@.len() - i,
        {
            turns.push(account.local_turn_registry[i].clone());
            i += 1;
            assert(turns@ =~= account.local_turn_registry@.take(i as int));
        }
        let ghost owned = account.local_turn_registry@;
        assert(owned.take(owned.len() as int) =~= owned);
        let ghost interrupted = account.pending_interrupt_index@.map_values(
            |pending: PendingInterrupt| pending.turn,
        );
        let mut i: usize = 0;
        assert(turns@ =~= owned + interrupted.take(0));
        while i < account.pending_interrupt_index.len()
            invariant
                i <= account.pending_interrupt_index@.len(),
                interrupted == account.pending_interrupt_index@.map_values(
                    |pending: PendingInterrupt| pending.turn,
                ),
                turns@ == owned + interrupted.take(i as int),
            decreases account.pending_interrupt_index@.len() - i,
        {
            turns.push(account.pending_interrupt_index[i].turn.clone());
            i += 1;
            assert(turns@ =~= owned + interrupted.take(i as int));
        }
        assert(interrupted.take(interrupted.len() as int) =~= interrupted);
    }
    turns
}

/// Goes on with the turns.
fn next_turn(turns: Vec<TurnKey>) -> (r: (BootstrapStage, BootstrapAction))
    ensures
        goes_on(turns@, r.0@, r.1),
{
    let mut rest = turns;
    if rest.len() == 0 {
        return (BootstrapStage::Writing, BootstrapAction::Persist);
    }
    let turn = rest.remove(0);
    let read = turn.clone();
    assert(rest@ =~= turns@.drop_first());
    (BootstrapStage::Checking { turn, rest }, BootstrapAction::ReadThread { turn: read })
}

impl Bootstrap {
    /// Begins to establish the account of a workspace. Nothing is admitted until it is, and the
    /// owner of the account is to be read.
    pub fn begin(coordinator: &mut Coordinator, workspace_id: &str) -> (r: Result<
        (Bootstrap, BootstrapAction),
        String,
    >)
        ensures
            match r {
                Ok((bootstrap, action)) => {
                    &&& old(coordinator)@.bindings.dom().contains(workspace_id@)
                    &&& bootstrap.workspace_id@ == workspace_id@
                    &&& bootstrap.session_epoch@
                        == old(coordinator)@.bindings[workspace_id@].session_epoch@
                    &&& bootstrap.stage == BootstrapStage::Identity
                    &&& action == BootstrapAction::ReadIdentity
                    &&& final(coordinator)@ == (CoordinatorView {
                        gate: closed(old(coordinator)@.gate),
                        ..old(coordinator)@
                    })
                },
                Err(message) => {
                    &&& !old(coordinator)@.bindings.dom().contains(workspace_id@)
                    &&& final(coordinator)@ == old(coordinator)@
                    &&& message@ == BINDING_MISSING@
                },
            },
    {
        match coordinator.begin_bootstrap(workspace_id) {
            Ok(session_epoch) => Ok(
                (
                    Bootstrap {
                        workspace_id: workspace_id.to_owned(),
                        session_epoch,
                        stage: BootstrapStage::Identity,
                    },
                    BootstrapAction::ReadIdentity,
                ),
            ),
            Err(message) => Err(message),
        }
    }

    /// Goes on once the last action is done: `outcome` is the answer to what was read, anything
    /// where something was done, or why it could not be.
    pub fn step(
        &mut self,
        coordinator: &mut Coordinator,
        outcome: Result<Json, String>,
        now_ms: i64,
    ) -> (action: BootstrapAction)
        ensures
            final(self).workspace_id == old(self).workspace_id,
            final(self).session_epoch == old(self).session_epoch,
            bootstraps(
                *old(self),
                old(coordinator)@,
                outcome,
                now_ms,
                final(self).stage@,
                final(coordinator)@,
                action,
            ),
    {
        let mut stage = BootstrapStage::Ended;
        std::mem::swap(&mut stage, &mut self.stage);
        let value = match outcome {
            Ok(value) => value,
            Err(message) => {
                return BootstrapAction::Failed { message };
            },
        };
        match stage {
            BootstrapStage::Identity => {
                let identity = strict_account_identity(&value);
                let read = match &identity {
                    Some(identity) => Some(identity.as_str()),
                    None => None,
                };
                assert(crate::text::str_view(read) == text_view(identity));
                match coordinator.identity_read(self.workspace_id.as_str(), read, now_ms) {
                    Err(message) => BootstrapAction::Failed { message },
                    Ok(None) => {
                        self.stage = BootstrapStage::Limits;
                        BootstrapAction::ReadRateLimits
                    },
                    Ok(Some(event)) => {
                        self.stage = BootstrapStage::Enabling;
                        BootstrapAction::Apply { event }
                    },
                }
            },
            BootstrapStage::Enabling => {
                self.stage = BootstrapStage::Limits;
                BootstrapAction::ReadRateLimits
            },
            BootstrapStage::Limits => match coordinator.apply_rate_limits(
                &value,
                true,
                false,
                now_ms,
            ) {
                Ok(event) => {
                    self.stage = BootstrapStage::Applying;
                    BootstrapAction::Apply { event }
                },
                Err(message) => BootstrapAction::Failed { message },
            },
            BootstrapStage::Applying => {
                coordinator.associate(self.workspace_id.as_str(), now_ms);
                let (stage, action) = next_turn(collect_turns(coordinator));
                self.stage = stage;
                action
            },
            BootstrapStage::Checking { turn, rest } => match coordinator.turn_checked(
                turn,
                &value,
                now_ms,
            ) {
                Some(event) => {
                    self.stage = BootstrapStage::Ending { rest };
                    BootstrapAction::Apply { event }
                },
                None => {
                    let (stage, action) = next_turn(rest);
                    self.stage = stage;
                    action
                },
            },
            BootstrapStage::Ending { rest } => {
                let (stage, action) = next_turn(rest);
                self.stage = stage;
                action
            },
            BootstrapStage::Writing => {
                let due = coordinator.finish_bootstrap(
                    self.session_epoch.as_str(),
                    self.workspace_id.as_str(),
                    now_ms,
                );
                BootstrapAction::Finished { due }
            },
            BootstrapStage::Ended => BootstrapAction::Finished { due: None },
        }
    }
}

/// How far the check of a monitored account is.
#[derive(Debug, Clone, Copy, PartialEq, Eq, Structural)]
pub enum RevalidationStage {
    /// The owner is being read.
    Identity,
    /// The limits are being read.
    Limits,
    /// The limits are being applied.
    Applying,
    /// It has ended.
    Ended,
}

/// The check of a monitored account, through a workspace of it.
#[derive(Debug, PartialEq, Eq)]
pub struct Revalidation {
    pub workspace_id: String,
    /// The generation in which the check came due.
    pub generation: u64,
    pub stage: RevalidationStage,
}

/// Whether a step of a check leads to this stage and coordinator, with this action. `outcome` is
/// what came of the last action.
pub open spec fn revalidates(
    check: Revalidation,
    before: CoordinatorView,
    outcome: Result<Json, String>,
    now_ms: i64,
    stage: RevalidationStage,
    after: CoordinatorView,
    action: BootstrapAction,
) -> bool {
    match outcome {
        Err(reason) => after == before && stage == RevalidationStage::Ended && action == (
        BootstrapAction::Failed { message: reason }),
        Ok(value) => match check.stage {
            RevalidationStage::Identity => after == before && match before.check_error(
                check.workspace_id@,
                strict_identity(value@),
            ) {
                Some(reason) => stage == RevalidationStage::Ended && (
                action matches BootstrapAction::Failed { message } && message@ == reason),
                None => stage == RevalidationStage::Limits && action
                    == BootstrapAction::ReadRateLimits,
            },
            RevalidationStage::Limits => after == before && match action {
                BootstrapAction::Apply { event } => stage == RevalidationStage::Applying
                    && reads_limits(before.runtime, value@, true, false, now_ms, Ok(event)),
                BootstrapAction::Failed { message } => stage == RevalidationStage::Ended
                    && reads_limits(before.runtime, value@, true, false, now_ms, Err(message)),
                _ => false,
            },
            RevalidationStage::Applying => {
                &&& stage == RevalidationStage::Ended
                &&& if before.runtime.lifecycle_generation == check.generation {
                    let (scheduled, due) = scheduling(before, now_ms);
                    after == scheduled && action == (BootstrapAction::Finished { due })
                } else {
                    after == before && action == (BootstrapAction::Finished { due: None })
                }
            },
            RevalidationStage::Ended => after == before && stage == RevalidationStage::Ended
                && action == (BootstrapAction::Finished { due: None }),
        },
    }
}

impl Revalidation {
    /// Begins the check of an account that came due in a generation. The owner of the account is
    /// to be read through the workspace.
    pub fn begin(coordinator: &Coordinator, generation: u64) -> (r: Result<
        (Revalidation, BootstrapAction),
        String,
    >)
        ensures
            match coordinator@.revalidates_through() {
                Ok(workspace_id) => r matches Ok((check, action)) && check == (Revalidation {
                    workspace_id,
                    generation,
                    stage: RevalidationStage::Identity,
                }) && action == BootstrapAction::ReadIdentity,
                Err(reason) => r matches Err(message) && message@ == reason,
            },
    {
        match coordinator.healthy_revalidate() {
            Ok(workspace_id) => Ok(
                (
                    Revalidation { workspace_id, generation, stage: RevalidationStage::Identity },
                    BootstrapAction::ReadIdentity,
                ),
            ),
            Err(message) => Err(message),
        }
    }

    /// Goes on once the last action is done: `outcome` is the answer to what was read, anything
    /// where something was done, or why it could not be.
    pub fn step(
        &mut self,
        coordinator: &mut Coordinator,
        outcome: Result<Json, String>,
        now_ms: i64,
    ) -> (action: BootstrapAction)
        ensures
            final(self).workspace_id == old(self).workspace_id,
            final(self).generation == old(self).generation,
            revalidates(
                *old(self),
                old(coordinator)@,
                outcome,
                now_ms,
                final(self).stage,
                final(coordinator)@,
                action,
            ),
    {
        let stage = self.stage;
        self.stage = RevalidationStage::Ended;
        let value = match outcome {
            Ok(value) => value,
            Err(message) => {
                return BootstrapAction::Failed { message };
            },
        };
        match stage {
            RevalidationStage::Identity => {
                let identity = strict_account_identity(&value);
                let read = match &identity {
                    Some(identity) => Some(identity.as_str()),
                    None => None,
                };
                assert(crate::text::str_view(read) == text_view(identity));
                match coordinator.identity_checked(self.workspace_id.as_str(), read) {
                    Ok(()) => {
                        self.stage = RevalidationStage::Limits;
                        BootstrapAction::ReadRateLimits
                    },
                    Err(message) => BootstrapAction::Failed { message },
                }
            },
            RevalidationStage::Limits => match coordinator.apply_rate_limits(
                &value,
                true,
                false,
                now_ms,
            ) {
                Ok(event) => {
                    self.stage = RevalidationStage::Applying;
                    BootstrapAction::Apply { event }
                },
                Err(message) => BootstrapAction::Failed { message },
            },
            RevalidationStage::Applying => {
                let due = coordinator.revalidated(self.generation, now_ms);
                BootstrapAction::Finished { due }
            },
            RevalidationStage::Ended => BootstrapAction::Finished { due: None },
        }
    }
}

/// No step before the last touches the process gate: a workspace is admitted only once its owner,
/// its limits and its turns have been read and the state is written, and only where the process
/// is open.
pub proof fn only_the_last_step_admits(
    bootstrap: Bootstrap,
    before: CoordinatorView,
    outcome: Result<Json, String>,
    now_ms: i64,
    stage: StageView,
    after: CoordinatorView,
    action: BootstrapAction,
)
    requires
        bootstraps(bootstrap, before, outcome, now_ms, stage, after, action),
        after.gate != before.gate,
    ensures
        bootstrap.stage@ == StageView::Writing,
        outcome is Ok,
        stage == StageView::Ended,
        before.gate.policy == ProcessPolicy::EnabledOpen,
        after.gate.permits == before.gate.permits.insert(
            (bootstrap.session_epoch@, bootstrap.workspace_id@),
            true,
        ),
{
}

/// An event is applied only behind the owner: nothing is applied where the answer names no owner,
/// or another one than that of the known account.
pub proof fn nothing_is_applied_without_the_owner(
    bootstrap: Bootstrap,
    before: CoordinatorView,
    answer: Json,
    now_ms: i64,
    stage: StageView,
    after: CoordinatorView,
    action: BootstrapAction,
)
    requires
        bootstrap.stage@ == StageView::Identity,
        bootstraps(bootstrap, before, Ok(answer), now_ms, stage, after, action),
        strict_identity(answer@) is None || establishes(
            before,
            bootstrap.workspace_id@,
            strict_identity(answer@),
        ) is Err,
    ensures
        action is Failed,
        stage == StageView::Ended,
        after == before,
{
}

/// How many steps are left at most, once the turns are known.
pub open spec fn steps_left(stage: StageView) -> nat {
    match stage {
        StageView::Checking { rest, .. } => 2 * rest.len() + 3,
        StageView::Ending { rest } => 2 * rest.len() + 2,
        StageView::Writing => 1,
        _ => 0,
    }
}

/// Each turn is checked once: every step with the turns comes closer to the end.
pub proof fn checking_ends(
    bootstrap: Bootstrap,
    before: CoordinatorView,
    outcome: Result<Json, String>,
    now_ms: i64,
    stage: StageView,
    after: CoordinatorView,
    action: BootstrapAction,
)
    requires
        bootstrap.stage@ is Checking || bootstrap.stage@ is Ending || bootstrap.stage@ is Writing,
        bootstraps(bootstrap, before, outcome, now_ms, stage, after, action),
    ensures
        steps_left(stage) < steps_left(bootstrap.stage@),
{
}

/// The check of an account never touches the process gate.
pub proof fn a_check_admits_nothing(
    check: Revalidation,
    before: CoordinatorView,
    outcome: Result<Json, String>,
    now_ms: i64,
    stage: RevalidationStage,
    after: CoordinatorView,
    action: BootstrapAction,
)
    requires
        revalidates(check, before, outcome, now_ms, stage, after, action),
    ensures
        after.gate == before.gate,
{
}

} // verus!
