//! What the limiter starts with.

use crate::gate::ProcessPolicy;
use crate::model::{AccountRuntime, AccountView, QuotaGuardPhase, QuotaGuardRuntimeState, RuntimeView};
use crate::persistence::{LoadRuntime, LoadView};
use vstd::prelude::*;
use vstd::string::*;

verus! {

/// The state and the policy to start with.
#[derive(Debug, PartialEq)]
pub struct RecoveryDecision {
    pub state: QuotaGuardRuntimeState,
    pub policy: ProcessPolicy,
    /// Whether the account has to be read before anything is admitted.
    pub requires_bootstrap: bool,
}

/// What a decision holds.
#[verifier::ext_equal]
pub struct RecoveryView {
    pub state: RuntimeView,
    pub policy: ProcessPolicy,
    pub requires_bootstrap: bool,
}

impl View for RecoveryDecision {
    type V = RecoveryView;

    open spec fn view(&self) -> RecoveryView {
        RecoveryView {
            state: self.state@,
            policy: self.policy,
            requires_bootstrap: self.requires_bootstrap,
        }
    }
}

/// The state that says that what was kept cannot be used. Its account has no name.
pub open spec fn is_corrupt_state(state: RuntimeView, now_ms: i64) -> bool {
    &&& state.account is Some
    &&& state.account->0.account_key@ == Seq::<char>::empty()
    &&& state == (RuntimeView {
        account: Some(
            AccountView {
                phase: QuotaGuardPhase::InterventionRequired,
                last_error: Some("quota guard state is corrupt"@),
                ..AccountView::fresh(state.account->0.account_key, now_ms)
            },
        ),
        ..RuntimeView::initial()
    })
}

/// Whether a kept state was one of a limiter that was on.
pub open spec fn was_on(state: RuntimeView) -> bool {
    state.account matches Some(account) && account.phase != QuotaGuardPhase::Disabled
}

/// Whether `decision` is the one to start with. The setting comes first: where the limiter is
/// off, nothing that was kept matters.
pub open spec fn recovers(
    enabled: bool,
    loaded: LoadView,
    now_ms: i64,
    decision: RecoveryView,
) -> bool {
    if !enabled {
        decision == (RecoveryView {
            state: RuntimeView::initial(),
            policy: ProcessPolicy::DisabledOpen,
            requires_bootstrap: false,
        })
    } else {
        match loaded {
            LoadView::Valid(state) => decision == (RecoveryView {
                state: if was_on(state) { state } else { RuntimeView::initial() },
                policy: ProcessPolicy::EnabledClosed,
                requires_bootstrap: true,
            }),
            LoadView::Missing => decision == (RecoveryView {
                state: RuntimeView::initial(),
                policy: ProcessPolicy::EnabledClosed,
                requires_bootstrap: true,
            }),
            LoadView::Corrupt { .. } => is_corrupt_state(decision.state, now_ms)
                && decision.policy == ProcessPolicy::EnabledClosed && !decision.requires_bootstrap,
        }
    }
}

/// Decides what to start with.
pub fn recover(enabled: bool, loaded: LoadRuntime, now_ms: i64) -> (r: RecoveryDecision)
    ensures
        recovers(enabled, loaded@, now_ms, r@),
{
    if !enabled {
        return RecoveryDecision {
            state: QuotaGuardRuntimeState::default(),
            policy: ProcessPolicy::DisabledOpen,
            requires_bootstrap: false,
        };
    }
    match loaded {
        LoadRuntime::Valid(state) => {
            let on = match &state.account {
                Some(account) => account.phase != QuotaGuardPhase::Disabled,
                None => false,
            };
            RecoveryDecision {
                state: if on { state } else { QuotaGuardRuntimeState::default() },
                policy: ProcessPolicy::EnabledClosed,
                requires_bootstrap: true,
            }
        },
        LoadRuntime::Corrupt { .. } => {
            let mut state = QuotaGuardRuntimeState::default();
            let mut account = AccountRuntime::new(String::new(), now_ms);
            account.phase = QuotaGuardPhase::InterventionRequired;
            account.last_error = Some("quota guard state is corrupt".to_owned());
            state.account = Some(account);
            RecoveryDecision {
                state,
                policy: ProcessPolicy::EnabledClosed,
                requires_bootstrap: false,
            }
        },
        LoadRuntime::Missing => RecoveryDecision {
            state: QuotaGuardRuntimeState::default(),
            policy: ProcessPolicy::EnabledClosed,
            requires_bootstrap: true,
        },
    }
}

/// A limiter that is on starts closed, whatever was kept.
pub proof fn enabled_starts_closed(loaded: LoadView, now_ms: i64, decision: RecoveryView)
    requires
        recovers(true, loaded, now_ms, decision),
    ensures
        decision.policy == ProcessPolicy::EnabledClosed,
{
}

/// A limiter that is off starts open and remembers nothing.
pub proof fn disabled_starts_open_and_empty(loaded: LoadView, now_ms: i64, decision: RecoveryView)
    requires
        recovers(false, loaded, now_ms, decision),
    ensures
        decision.policy == ProcessPolicy::DisabledOpen,
        decision.state == RuntimeView::initial(),
{
}

/// A limiter that is on and whose kept account was monitored, tripped or waited for intervention
/// starts with exactly what was kept: the account, its turns, its pending interrupts and what it
/// has suspended. It starts closed, and the account is read first.
pub proof fn a_kept_limiter_is_taken_up_again(
    state: RuntimeView,
    now_ms: i64,
    decision: RecoveryView,
)
    requires
        recovers(true, LoadView::Valid(state), now_ms, decision),
        state.account is Some,
        state.account->0.phase == QuotaGuardPhase::Monitoring || state.account->0.phase
            == QuotaGuardPhase::Tripped || state.account->0.phase
            == QuotaGuardPhase::InterventionRequired,
    ensures
        decision.state == state,
        decision.policy == ProcessPolicy::EnabledClosed,
        decision.requires_bootstrap,
{
}

/// A limiter that is on starts anew, closed, and reads the account first, where nothing was kept,
/// where no account was, or where the kept one was disabled.
pub proof fn a_limiter_without_an_account_starts_anew(
    loaded: LoadView,
    now_ms: i64,
    decision: RecoveryView,
)
    requires
        recovers(true, loaded, now_ms, decision),
        loaded is Missing || (loaded matches LoadView::Valid(state) && (state.account is None
            || state.account->0.phase == QuotaGuardPhase::Disabled)),
    ensures
        decision.state.account is None,
        decision.state.lifecycle_generation == 0,
        decision.state.next_operation_id == 0,
        decision.state.effective_settings is None,
        decision.state.pending_thresholds is None,
        decision.state.schema_version == 2,
        decision.policy == ProcessPolicy::EnabledClosed,
        decision.requires_bootstrap,
{
}

/// A limiter that is on and whose kept state cannot be used asks for intervention and says why; it
/// stays closed, reads nothing, and knows of no turn and no suspended process.
pub proof fn a_corrupt_state_asks_for_intervention(
    quarantined_to: Seq<char>,
    now_ms: i64,
    decision: RecoveryView,
)
    requires
        recovers(true, LoadView::Corrupt { quarantined_to }, now_ms, decision),
    ensures
        decision.policy == ProcessPolicy::EnabledClosed,
        !decision.requires_bootstrap,
        decision.state.account matches Some(account) && account.phase
            == QuotaGuardPhase::InterventionRequired && account.last_error == Some(
            "quota guard state is corrupt"@,
        ) && account.account_key@.len() == 0 && account.updated_at == now_ms
            && account.local_turn_registry.len() == 0 && account.pending_interrupt_index.len() == 0
            && account.suspended_external_engines.len() == 0 && account.snapshot is None,
{
}

} // verus!
