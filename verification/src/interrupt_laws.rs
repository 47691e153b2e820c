//! What becomes of the interrupts that are requested, stated on what the requests hold.

use crate::interrupts::{requests_for, requests_are_added_once};
use crate::model::{
    unique_interrupts, AccountView, PendingInterrupt, QuotaGuardPhase, RuntimeView, TurnKey,
};
use crate::reducer::{reduced, ReducerEffect, ReducerEvent};
use crate::search::{lemma_filtered, lemma_first_where, lemma_placed};
use crate::settings::QuotaGuardSettings;
use crate::text::precedes;
use vstd::prelude::*;

verus! {

/// A request that is acknowledged for the first time is noted as such and gets ten seconds to end
/// its turn; the other requests stay as they are. A second acknowledgement changes nothing.
pub proof fn an_acknowledged_request_is_given_time(
    runtime: RuntimeView,
    turn: TurnKey,
    generation: u64,
    operation_id: u64,
    attempt: u8,
    now_ms: i64,
    settings: QuotaGuardSettings,
    at: int,
)
    requires
        runtime.account is Some,
        now_ms <= i64::MAX - 10_000,
        ({
            let pending = runtime.account->0.pending_interrupt_index;
            let exact = |p: PendingInterrupt|
                p.turn.id() == turn.id() && p.generation == generation && p.operation_id
                    == operation_id && p.attempt == attempt;
            &&& 0 <= at < pending.len()
            &&& forall|i: int| 0 <= i < at ==> !exact(#[trigger] pending[i])
            &&& exact(pending[at])
        }),
    ensures
        ({
            let account = runtime.account->0;
            let pending = account.pending_interrupt_index;
            let event = ReducerEvent::InterruptAcknowledged {
                turn,
                generation,
                operation_id,
                attempt,
                now_ms,
            };
            let (next, effects) = reduced(runtime, event, settings);
            let deadline = (now_ms + 10_000) as i64;
            &&& pending[at].acknowledged ==> next == runtime && effects.len() == 0
            &&& !pending[at].acknowledged ==> {
                &&& next == (RuntimeView {
                    account: Some(
                        AccountView {
                            pending_interrupt_index: pending.update(
                                at,
                                PendingInterrupt {
                                    acknowledged: true,
                                    completion_deadline: Some(deadline),
                                    ..pending[at]
                                },
                            ),
                            updated_at: now_ms,
                            ..account
                        },
                    ),
                    ..runtime
                })
                &&& effects == seq![
                    ReducerEffect::ScheduleInterruptCompletion {
                        turn: pending[at].turn,
                        generation,
                        operation_id,
                        attempt,
                        deadline,
                    },
                ]
            }
        }),
{
    lemma_request_at(runtime, turn, generation, operation_id, attempt, at);
}

proof fn lemma_request_at(
    runtime: RuntimeView,
    turn: TurnKey,
    generation: u64,
    operation_id: u64,
    attempt: u8,
    at: int,
)
    requires
        runtime.account is Some,
        ({
            let pending = runtime.account->0.pending_interrupt_index;
            let exact = |p: PendingInterrupt|
                p.turn.id() == turn.id() && p.generation == generation && p.operation_id
                    == operation_id && p.attempt == attempt;
            &&& 0 <= at < pending.len()
            &&& forall|i: int| 0 <= i < at ==> !exact(#[trigger] pending[i])
            &&& exact(pending[at])
        }),
    ensures
        crate::interrupts::request_at(
            runtime.account->0.pending_interrupt_index,
            turn,
            generation,
            operation_id,
            attempt,
        ) == Some(at),
{
    let pending = runtime.account->0.pending_interrupt_index;
    let wanted = |p: PendingInterrupt|
        crate::interrupts::is_request(p, turn, generation, operation_id, attempt);
    assert forall|i: int| 0 <= i < at implies !wanted(#[trigger] pending[i]) by {}
    lemma_first_where(pending, wanted, at);
}

/// When a timer of a request runs out, it is asked whether the turn is still active: after the
/// acknowledgement's deadline where none has come, and after the deadline of the turn's end where
/// there is one. Before that nothing is asked. The state stays as it is.
pub proof fn an_overdue_request_is_looked_into(
    runtime: RuntimeView,
    turn: TurnKey,
    generation: u64,
    operation_id: u64,
    attempt: u8,
    acknowledgement: bool,
    now_ms: i64,
    settings: QuotaGuardSettings,
    at: int,
)
    requires
        runtime.account is Some,
        ({
            let pending = runtime.account->0.pending_interrupt_index;
            let exact = |p: PendingInterrupt|
                p.turn.id() == turn.id() && p.generation == generation && p.operation_id
                    == operation_id && p.attempt == attempt;
            &&& 0 <= at < pending.len()
            &&& forall|i: int| 0 <= i < at ==> !exact(#[trigger] pending[i])
            &&& exact(pending[at])
        }),
    ensures
        ({
            let request = runtime.account->0.pending_interrupt_index[at];
            let event = ReducerEvent::InterruptDeadline {
                turn,
                generation,
                operation_id,
                attempt,
                acknowledgement,
                now_ms,
            };
            let (next, effects) = reduced(runtime, event, settings);
            let late = (acknowledgement && !request.acknowledged && now_ms >= request.ack_deadline)
                || (!acknowledgement && (request.completion_deadline matches Some(deadline)
                && now_ms >= deadline));
            &&& next == runtime
            &&& !late ==> effects.len() == 0
            &&& late ==> effects == seq![
                ReducerEffect::ReconcileThread {
                    turn: request.turn,
                    generation,
                    operation_id,
                    attempt,
                },
            ]
        }),
{
    lemma_request_at(runtime, turn, generation, operation_id, attempt, at);
}

/// Once it is known which turn of the thread is active: where it is another or none, the turn is
/// let go. Where the turn is active and the account tripped, it is interrupted a second time, to be
/// acknowledged in ten seconds; after the second time the process is closed and intervention is
/// asked for. Where the account is not tripped, nothing happens.
pub proof fn a_turn_that_lives_on_is_interrupted_once_more(
    runtime: RuntimeView,
    active_turn_id: Option<String>,
    turn: TurnKey,
    generation: u64,
    operation_id: u64,
    attempt: u8,
    now_ms: i64,
    settings: QuotaGuardSettings,
    at: int,
)
    requires
        runtime.account is Some,
        now_ms <= i64::MAX - 10_000,
        ({
            let pending = runtime.account->0.pending_interrupt_index;
            let exact = |p: PendingInterrupt|
                p.turn.id() == turn.id() && p.generation == generation && p.operation_id
                    == operation_id && p.attempt == attempt;
            &&& 0 <= at < pending.len()
            &&& forall|i: int| 0 <= i < at ==> !exact(#[trigger] pending[i])
            &&& exact(pending[at])
        }),
    ensures
        ({
            let account = runtime.account->0;
            let pending = account.pending_interrupt_index;
            let event = ReducerEvent::InterruptReconciled {
                active_turn_id,
                turn,
                generation,
                operation_id,
                attempt,
                now_ms,
            };
            let (next, effects) = reduced(runtime, event, settings);
            let after = next.account->0;
            let active = active_turn_id matches Some(id) && id@ == turn.turn_id@;
            let deadline = (now_ms + 10_000) as i64;
            &&& next.account is Some
            &&& next == (RuntimeView { account: next.account, ..runtime })
            &&& !active ==> {
                &&& effects.len() == 0
                &&& after.phase == account.phase
                &&& forall|i: int|
                    0 <= i < after.local_turn_registry.len() ==> (
                    #[trigger] after.local_turn_registry[i]).id() != turn.id()
                &&& forall|i: int|
                    0 <= i < after.pending_interrupt_index.len() ==> (
                    #[trigger] after.pending_interrupt_index[i]).turn.id() != turn.id()
                &&& forall|i: int|
                    0 <= i < account.local_turn_registry.len() && (
                    #[trigger] account.local_turn_registry[i]).id() != turn.id()
                        ==> after.local_turn_registry.contains(account.local_turn_registry[i])
                &&& forall|i: int|
                    0 <= i < pending.len() && (#[trigger] pending[i]).turn.id() != turn.id()
                        ==> after.pending_interrupt_index.contains(pending[i])
            }
            &&& active && account.phase != QuotaGuardPhase::Tripped ==> next == runtime
                && effects.len() == 0
            &&& active && account.phase == QuotaGuardPhase::Tripped && attempt < 2 ==> {
                &&& after == (AccountView {
                    pending_interrupt_index: pending.update(
                        at,
                        PendingInterrupt {
                            attempt: 2,
                            acknowledged: false,
                            ack_deadline: deadline,
                            completion_deadline: None,
                            ..pending[at]
                        },
                    ),
                    updated_at: now_ms,
                    ..account
                })
                &&& effects == seq![
                    ReducerEffect::Interrupt {
                        turn: pending[at].turn,
                        generation,
                        operation_id,
                        attempt: 2,
                    },
                    ReducerEffect::ScheduleInterruptAck {
                        turn: pending[at].turn,
                        generation,
                        operation_id,
                        attempt: 2,
                        deadline,
                    },
                ]
            }
            &&& active && account.phase == QuotaGuardPhase::Tripped && attempt >= 2 ==> {
                &&& after == (AccountView {
                    phase: QuotaGuardPhase::InterventionRequired,
                    last_error: Some("Interrupted turn is still active after the last attempt"@),
                    updated_at: now_ms,
                    ..account
                })
                &&& effects == seq![ReducerEffect::SetProcessClosed]
            }
        }),
{
    lemma_request_at(runtime, turn, generation, operation_id, attempt, at);
    let account = runtime.account->0;
    lemma_kept(account.local_turn_registry, |known: TurnKey| known.id() != turn.id());
    lemma_kept(
        account.pending_interrupt_index,
        |p: PendingInterrupt| p.turn.id() != turn.id(),
    );
}

proof fn lemma_kept<T>(s: Seq<T>, keep: spec_fn(T) -> bool)
    ensures
        forall|i: int| 0 <= i < s.filter(keep).len() ==> keep(#[trigger] s.filter(keep)[i]),
        forall|i: int|
            0 <= i < s.len() && keep(#[trigger] s[i]) ==> s.filter(keep).contains(s[i]),
{
    lemma_filtered(s, keep);
    let kept = s.filter(keep);
    assert forall|i: int| 0 <= i < kept.len() implies keep(#[trigger] kept[i]) by {
        assert(kept.contains(kept[i]));
    }
    assert forall|i: int| 0 <= i < s.len() && keep(#[trigger] s[i]) implies kept.contains(s[i]) by {
        assert(s.contains(s[i]));
    }
}

/// After a restart each pending request is looked into and its timer set anew: that of the turn's
/// end where there is one, or else that of the acknowledgement. This is done in the order of the
/// requests, for each of them, and for nothing else.
pub proof fn a_restart_looks_into_every_request(
    runtime: RuntimeView,
    now_ms: i64,
    settings: QuotaGuardSettings,
)
    requires
        runtime.account is Some,
    ensures
        ({
            let pending = runtime.account->0.pending_interrupt_index;
            let (next, effects) = reduced(
                runtime,
                ReducerEvent::RehydratePendingInterrupts { now_ms },
                settings,
            );
            &&& next == runtime
            &&& effects.len() == 2 * pending.len()
            &&& forall|i: int|
                #![trigger pending[i]]
                0 <= i < pending.len() ==> effects[2 * i] == (ReducerEffect::ReconcileThread {
                    turn: pending[i].turn,
                    generation: pending[i].generation,
                    operation_id: pending[i].operation_id,
                    attempt: pending[i].attempt,
                }) && effects[2 * i + 1] == match pending[i].completion_deadline {
                    Some(deadline) => ReducerEffect::ScheduleInterruptCompletion {
                        turn: pending[i].turn,
                        generation: pending[i].generation,
                        operation_id: pending[i].operation_id,
                        attempt: pending[i].attempt,
                        deadline,
                    },
                    None => ReducerEffect::ScheduleInterruptAck {
                        turn: pending[i].turn,
                        generation: pending[i].generation,
                        operation_id: pending[i].operation_id,
                        attempt: pending[i].attempt,
                        deadline: pending[i].ack_deadline,
                    },
                }
        }),
{
    lemma_rehydrated(runtime.account->0.pending_interrupt_index);
}

proof fn lemma_rehydrated(pending: Seq<PendingInterrupt>)
    ensures
        crate::interrupts::rehydrated(pending).len() == 2 * pending.len(),
        forall|i: int|
            #![trigger pending[i]]
            0 <= i < pending.len() ==> crate::interrupts::rehydrated(pending)[2 * i]
                == crate::interrupts::resuming(pending[i])[0] && crate::interrupts::rehydrated(
                pending,
            )[2 * i + 1] == crate::interrupts::resuming(pending[i])[1],
    decreases pending.len(),
{
    if pending.len() > 0 {
        let rest = pending.drop_last();
        lemma_rehydrated(rest);
        assert forall|i: int|
            #![trigger pending[i]]
            0 <= i < pending.len() implies crate::interrupts::rehydrated(pending)[2 * i]
            == crate::interrupts::resuming(pending[i])[0] && crate::interrupts::rehydrated(
            pending,
        )[2 * i + 1] == crate::interrupts::resuming(pending[i])[1] by {
            if i < rest.len() {
                assert(rest[i] == pending[i]);
            }
        }
    }
}

/// When an episode of this generation is finished while the account is tripped, every owned turn
/// without a request gets one: a first attempt of this generation, to be acknowledged in ten
/// seconds, under an operation number of its own from the next free one on. The interrupt is sent
/// and its timer set. Requests that were pending stay, and no other turn gets one.
pub proof fn finishing_an_episode_requests_interrupts(
    runtime: RuntimeView,
    now_ms: i64,
    settings: QuotaGuardSettings,
    request: PendingInterrupt,
    owned: int,
)
    requires
        runtime.account is Some,
        runtime.account->0.phase == QuotaGuardPhase::Tripped,
        unique_interrupts(runtime.account->0.pending_interrupt_index),
        0 <= owned < runtime.account->0.local_turn_registry.len(),
        runtime.next_operation_id + runtime.account->0.local_turn_registry.len() <= u64::MAX,
        now_ms <= i64::MAX - 10_000,
    ensures
        ({
            let account = runtime.account->0;
            let before = account.pending_interrupt_index;
            let event = ReducerEvent::FinalizeClosedEpisode {
                transition_id: runtime.lifecycle_generation,
                now_ms,
            };
            let (next, effects) = reduced(runtime, event, settings);
            let after = next.account->0.pending_interrupt_index;
            &&& next.account == Some(
                AccountView { pending_interrupt_index: after, updated_at: now_ms, ..account },
            )
            &&& next == (RuntimeView {
                account: next.account,
                next_operation_id: next.next_operation_id,
                ..runtime
            })
            &&& next.next_operation_id == runtime.next_operation_id + (after.len() - before.len())
            &&& effects.len() == 2 * (after.len() - before.len())
            &&& before.contains(request) ==> after.contains(request)
            &&& exists|i: int|
                0 <= i < after.len() && (#[trigger] after[i]).turn.id()
                    == account.local_turn_registry[owned].id()
            &&& after.contains(request) && !before.contains(request) ==> {
                &&& request.generation == runtime.lifecycle_generation
                &&& request.attempt == 1
                &&& !request.acknowledged
                &&& request.ack_deadline == now_ms + 10_000
                &&& request.completion_deadline is None
                &&& runtime.next_operation_id <= request.operation_id < next.next_operation_id
                &&& exists|i: int|
                    0 <= i < account.local_turn_registry.len() && (
                    #[trigger] account.local_turn_registry[i]) == request.turn
                &&& exists|k: int|
                    0 <= k < effects.len() - 1 && (#[trigger] effects[k]) == (
                    ReducerEffect::Interrupt {
                        turn: request.turn,
                        generation: request.generation,
                        operation_id: request.operation_id,
                        attempt: 1,
                    }) && effects[k + 1] == (ReducerEffect::ScheduleInterruptAck {
                        turn: request.turn,
                        generation: request.generation,
                        operation_id: request.operation_id,
                        attempt: 1,
                        deadline: request.ack_deadline,
                    })
            }
        }),
{
    let account = runtime.account->0;
    let turns = account.local_turn_registry;
    let before = account.pending_interrupt_index;
    requests_are_added_once(
        turns,
        before,
        runtime.next_operation_id,
        runtime.lifecycle_generation,
        now_ms,
    );
    lemma_requests(
        turns,
        before,
        runtime.next_operation_id,
        runtime.lifecycle_generation,
        now_ms,
        request,
    );
    let after = requests_for(
        turns,
        before,
        runtime.next_operation_id,
        runtime.lifecycle_generation,
        now_ms,
    ).0;
    assert(crate::interrupts::is_pending(after, turns[owned]));
    let event = ReducerEvent::FinalizeClosedEpisode {
        transition_id: runtime.lifecycle_generation,
        now_ms,
    };
    let (next, effects) = reduced(runtime, event, settings);
    assert(next.account->0.pending_interrupt_index == after);
    let i = choose|i: int|
        0 <= i < after.len() && (#[trigger] after[i]).turn.id() == turns[owned].id();
    assert(after[i].turn.id() == account.local_turn_registry[owned].id());
}

proof fn lemma_requests(
    turns: Seq<TurnKey>,
    pending: Seq<PendingInterrupt>,
    next_operation_id: u64,
    generation: u64,
    now_ms: i64,
    request: PendingInterrupt,
)
    requires
        next_operation_id + turns.len() <= u64::MAX,
        now_ms <= i64::MAX - 10_000,
    ensures
        ({
            let (after, id, effects) = requests_for(
                turns,
                pending,
                next_operation_id,
                generation,
                now_ms,
            );
            &&& pending.len() <= after.len() <= pending.len() + turns.len()
            &&& id == next_operation_id + (after.len() - pending.len())
            &&& effects.len() == 2 * (after.len() - pending.len())
            &&& after.contains(request) && !pending.contains(request) ==> {
                &&& request.generation == generation
                &&& request.attempt == 1
                &&& !request.acknowledged
                &&& request.ack_deadline == now_ms + 10_000
                &&& request.completion_deadline is None
                &&& next_operation_id <= request.operation_id < id
                &&& exists|i: int| 0 <= i < turns.len() && (#[trigger] turns[i]) == request.turn
                &&& exists|k: int|
                    0 <= k < effects.len() - 1 && (#[trigger] effects[k]) == (
                    ReducerEffect::Interrupt {
                        turn: request.turn,
                        generation: request.generation,
                        operation_id: request.operation_id,
                        attempt: 1,
                    }) && effects[k + 1] == (ReducerEffect::ScheduleInterruptAck {
                        turn: request.turn,
                        generation: request.generation,
                        operation_id: request.operation_id,
                        attempt: 1,
                        deadline: request.ack_deadline,
                    })
            }
        }),
    decreases turns.len(),
{
    if turns.len() > 0 {
        let rest = turns.drop_last();
        lemma_requests(rest, pending, next_operation_id, generation, now_ms, request);
        let (known, id, effects) = requests_for(
            rest,
            pending,
            next_operation_id,
            generation,
            now_ms,
        );
        let (after, next_id, all) = requests_for(
            turns,
            pending,
            next_operation_id,
            generation,
            now_ms,
        );
        let turn = turns.last();
        if after.contains(request) && !pending.contains(request) {
            if known.contains(request) {
                let i = choose|i: int| 0 <= i < rest.len() && (#[trigger] rest[i]) == request.turn;
                assert(turns[i] == request.turn);
                let k = choose|k: int|
                    0 <= k < effects.len() - 1 && (#[trigger] effects[k]) == (
                    ReducerEffect::Interrupt {
                        turn: request.turn,
                        generation: request.generation,
                        operation_id: request.operation_id,
                        attempt: 1,
                    }) && effects[k + 1] == (ReducerEffect::ScheduleInterruptAck {
                        turn: request.turn,
                        generation: request.generation,
                        operation_id: request.operation_id,
                        attempt: 1,
                        deadline: request.ack_deadline,
                    });
                assert(all[k] == effects[k]);
                assert(all[k + 1] == effects[k + 1]);
            } else {
                let made = crate::interrupts::first_request(turn, generation, id, now_ms);
                let at = lemma_placed(
                    known,
                    made,
                    |p: PendingInterrupt| precedes(made.turn.id(), p.turn.id()),
                );
                let j = choose|j: int| 0 <= j < after.len() && after[j] == request;
                if j != at {
                    assert(known[if j < at { j } else { j - 1 }] == request);
                }
                assert(request == made);
                assert(turns[turns.len() - 1] == request.turn);
                let k = effects.len() as int;
                assert(all[k] == crate::interrupts::requesting(made)[0]);
                assert(all[k + 1] == crate::interrupts::requesting(made)[1]);
            }
        }
        if !crate::interrupts::is_pending(known, turn) {
            let made = crate::interrupts::first_request(turn, generation, id, now_ms);
            let at = lemma_placed(
                known,
                made,
                |p: PendingInterrupt| precedes(made.turn.id(), p.turn.id()),
            );
            assert(after.len() == known.len() + 1);
        }
    }
}

/// An episode is finished only while the account is tripped: otherwise nothing is requested.
pub proof fn an_account_that_is_not_tripped_finishes_nothing(
    runtime: RuntimeView,
    transition_id: u64,
    now_ms: i64,
    settings: QuotaGuardSettings,
)
    requires
        runtime.account matches Some(account) ==> account.phase != QuotaGuardPhase::Tripped
            || transition_id != runtime.lifecycle_generation,
    ensures
        reduced(
            runtime,
            ReducerEvent::FinalizeClosedEpisode { transition_id, now_ms },
            settings,
        ) == (runtime, Seq::<ReducerEffect>::empty()),
{
}

} // verus!
