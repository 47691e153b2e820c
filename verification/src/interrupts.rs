//! Interrupts that have been requested and wait to be confirmed.

use crate::model::{
    among, interrupts_stay_ordered, ordered_interrupts, place_interrupt, unique_interrupts,
    with_interrupt, AccountRuntime, AccountView, PendingInterrupt, QuotaGuardPhase, TurnKey,
};
use crate::reducer::{confirmation_deadline, deadline_after, ReducerEffect};
use crate::search::{
    first_where, lemma_first_where, lemma_first_where_found, lemma_placed, position_where,
    retain_where,
};
use crate::text::{precedes, same_text};
use vstd::prelude::*;
use vstd::string::*;

verus! {

/// How often an interrupt is requested for a turn before intervention is asked for.
pub const INTERRUPT_ATTEMPTS: u8 = 2;

/// Why intervention is required after an interrupt that the turn outlived.
pub const INTERRUPT_UNCONFIRMED: &'static str = "Interrupted turn is still active after the last attempt";

/// The first request to interrupt a turn.
pub open spec fn first_request(
    turn: TurnKey,
    generation: u64,
    operation_id: u64,
    now_ms: i64,
) -> PendingInterrupt {
    PendingInterrupt {
        turn,
        generation,
        operation_id,
        attempt: 1,
        acknowledged: false,
        ack_deadline: confirmation_deadline(now_ms),
        completion_deadline: None,
    }
}

/// The request once more, to be acknowledged anew.
pub open spec fn next_request(pending: PendingInterrupt, now_ms: i64) -> PendingInterrupt {
    PendingInterrupt {
        attempt: INTERRUPT_ATTEMPTS,
        acknowledged: false,
        ack_deadline: confirmation_deadline(now_ms),
        completion_deadline: None,
        ..pending
    }
}

/// What makes a request: the interrupt, and a timer for its acknowledgement.
pub open spec fn requesting(pending: PendingInterrupt) -> Seq<ReducerEffect> {
    seq![
        ReducerEffect::Interrupt {
            turn: pending.turn,
            generation: pending.generation,
            operation_id: pending.operation_id,
            attempt: pending.attempt,
        },
        acknowledgement_timer(pending),
    ]
}

/// The timer for the acknowledgement of a request.
pub open spec fn acknowledgement_timer(pending: PendingInterrupt) -> ReducerEffect {
    ReducerEffect::ScheduleInterruptAck {
        turn: pending.turn,
        generation: pending.generation,
        operation_id: pending.operation_id,
        attempt: pending.attempt,
        deadline: pending.ack_deadline,
    }
}

/// The timer for the end of a turn whose interrupt was acknowledged.
pub open spec fn completion_timer(pending: PendingInterrupt, deadline: i64) -> ReducerEffect {
    ReducerEffect::ScheduleInterruptCompletion {
        turn: pending.turn,
        generation: pending.generation,
        operation_id: pending.operation_id,
        attempt: pending.attempt,
        deadline,
    }
}

/// The question whether the turn is still active.
pub open spec fn reconciling(pending: PendingInterrupt) -> ReducerEffect {
    ReducerEffect::ReconcileThread {
        turn: pending.turn,
        generation: pending.generation,
        operation_id: pending.operation_id,
        attempt: pending.attempt,
    }
}

/// Whether a request for the turn is pending.
pub open spec fn is_pending(pending: Seq<PendingInterrupt>, turn: TurnKey) -> bool {
    exists|i: int| 0 <= i < pending.len() && (#[trigger] pending[i]).turn.id() == turn.id()
}

/// The operation id after `id`.
pub open spec fn operation_after(id: u64) -> u64 {
    if id == u64::MAX {
        id
    } else {
        (id + 1) as u64
    }
}

/// The pending requests, the next operation id and what was done, once an interrupt has been
/// requested for each of the turns that had none.
pub open spec fn requests_for(
    turns: Seq<TurnKey>,
    pending: Seq<PendingInterrupt>,
    next_operation_id: u64,
    generation: u64,
    now_ms: i64,
) -> (Seq<PendingInterrupt>, u64, Seq<ReducerEffect>)
    decreases turns.len(),
{
    if turns.len() == 0 {
        (pending, next_operation_id, seq![])
    } else {
        let (known, id, effects) = requests_for(
            turns.drop_last(),
            pending,
            next_operation_id,
            generation,
            now_ms,
        );
        let turn = turns.last();
        if is_pending(known, turn) {
            (known, id, effects)
        } else {
            let request = first_request(turn, generation, id, now_ms);
            (with_interrupt(known, request), operation_after(id), effects + requesting(request))
        }
    }
}

/// The account, the next operation id and the effects once a closed episode has been drained:
/// each owned turn is interrupted.
pub open spec fn after_finalized(
    account: AccountView,
    next_operation_id: u64,
    generation: u64,
    transition_id: u64,
    now_ms: i64,
) -> (AccountView, u64, Seq<ReducerEffect>) {
    if account.phase == QuotaGuardPhase::Tripped && transition_id == generation {
        let (pending, id, effects) = requests_for(
            account.local_turn_registry,
            account.pending_interrupt_index,
            next_operation_id,
            generation,
            now_ms,
        );
        (
            AccountView { pending_interrupt_index: pending, updated_at: now_ms, ..account },
            id,
            effects,
        )
    } else {
        (account, next_operation_id, seq![])
    }
}

/// Whether the pending request is exactly this one.
pub open spec fn is_request(
    pending: PendingInterrupt,
    turn: TurnKey,
    generation: u64,
    operation_id: u64,
    attempt: u8,
) -> bool {
    &&& pending.turn.id() == turn.id()
    &&& pending.generation == generation
    &&& pending.operation_id == operation_id
    &&& pending.attempt == attempt
}

/// The position of exactly this request.
pub open spec fn request_at(
    pending: Seq<PendingInterrupt>,
    turn: TurnKey,
    generation: u64,
    operation_id: u64,
    attempt: u8,
) -> Option<int> {
    first_where(
        pending,
        |p: PendingInterrupt| is_request(p, turn, generation, operation_id, attempt),
    )
}

/// The account after the acknowledgement of a request, which is then to end the turn in time.
pub open spec fn after_acknowledged(
    account: AccountView,
    turn: TurnKey,
    generation: u64,
    operation_id: u64,
    attempt: u8,
    now_ms: i64,
) -> (AccountView, Seq<ReducerEffect>) {
    let pending = account.pending_interrupt_index;
    match request_at(pending, turn, generation, operation_id, attempt) {
        Some(i) => if pending[i].acknowledged {
            (account, seq![])
        } else {
            let deadline = confirmation_deadline(now_ms);
            (
                AccountView {
                    pending_interrupt_index: pending.update(
                        i,
                        PendingInterrupt {
                            acknowledged: true,
                            completion_deadline: Some(deadline),
                            ..pending[i]
                        },
                    ),
                    updated_at: now_ms,
                    ..account
                },
                seq![completion_timer(pending[i], deadline)],
            )
        },
        None => (account, seq![]),
    }
}

/// Whether the request is overdue: not acknowledged in time, or, once acknowledged, the turn
/// has not ended in time.
pub open spec fn overdue(pending: PendingInterrupt, acknowledgement: bool, now_ms: i64) -> bool {
    if acknowledgement {
        !pending.acknowledged && now_ms >= pending.ack_deadline
    } else {
        pending.completion_deadline matches Some(deadline) && now_ms >= deadline
    }
}

/// What is done when a timer of a request runs out.
pub open spec fn at_deadline(
    account: AccountView,
    turn: TurnKey,
    generation: u64,
    operation_id: u64,
    attempt: u8,
    acknowledgement: bool,
    now_ms: i64,
) -> Seq<ReducerEffect> {
    let pending = account.pending_interrupt_index;
    match request_at(pending, turn, generation, operation_id, attempt) {
        Some(i) => if overdue(pending[i], acknowledgement, now_ms) {
            seq![reconciling(pending[i])]
        } else {
            seq![]
        },
        None => seq![],
    }
}

/// The account without the turn: it is neither owned nor to be interrupted.
pub open spec fn disowned(account: AccountView, turn: TurnKey) -> AccountView {
    AccountView {
        local_turn_registry: account.local_turn_registry.filter(
            |known: TurnKey| known.id() != turn.id(),
        ),
        pending_interrupt_index: account.pending_interrupt_index.filter(
            |p: PendingInterrupt| p.turn.id() != turn.id(),
        ),
        ..account
    }
}

/// The account once it is known which turn of the thread is active: a turn that has ended is
/// let go; one that is still active while the account is tripped is interrupted once more, and
/// after the last attempt the process is closed and intervention asked for.
pub open spec fn after_reconciled(
    account: AccountView,
    turn: TurnKey,
    generation: u64,
    operation_id: u64,
    attempt: u8,
    active_turn_id: Option<Seq<char>>,
    now_ms: i64,
) -> (AccountView, Seq<ReducerEffect>) {
    let pending = account.pending_interrupt_index;
    let seen = AccountView { updated_at: now_ms, ..account };
    match request_at(pending, turn, generation, operation_id, attempt) {
        None => (account, seq![]),
        Some(i) => if active_turn_id != Some(turn.turn_id@) {
            (disowned(seen, turn), seq![])
        } else if account.phase != QuotaGuardPhase::Tripped {
            (account, seq![])
        } else if attempt < INTERRUPT_ATTEMPTS {
            let request = next_request(pending[i], now_ms);
            (
                AccountView { pending_interrupt_index: pending.update(i, request), ..seen },
                requesting(request),
            )
        } else {
            (
                AccountView {
                    phase: QuotaGuardPhase::InterventionRequired,
                    last_error: Some(INTERRUPT_UNCONFIRMED@),
                    ..seen
                },
                seq![ReducerEffect::SetProcessClosed],
            )
        },
    }
}

/// What a pending request needs after a restart: whether its turn is still active, and its
/// timer.
pub open spec fn resuming(pending: PendingInterrupt) -> Seq<ReducerEffect> {
    seq![
        reconciling(pending),
        match pending.completion_deadline {
            Some(deadline) => completion_timer(pending, deadline),
            None => acknowledgement_timer(pending),
        },
    ]
}

/// What the pending requests need after a restart, in their order.
pub open spec fn rehydrated(pending: Seq<PendingInterrupt>) -> Seq<ReducerEffect>
    decreases pending.len(),
{
    if pending.len() == 0 {
        seq![]
    } else {
        rehydrated(pending.drop_last()) + resuming(pending.last())
    }
}

fn has_request(pending: &Vec<PendingInterrupt>, turn: &TurnKey) -> (r: bool)
    ensures
        r == is_pending(pending@, *turn),
{
    let mut i: usize = 0;
    while i < pending.len()
        invariant
            i <= pending@.len(),
            forall|k: int| 0 <= k < i ==> (#[trigger] pending@[k]).turn.id() != turn.id(),
        decreases pending@.len() - i,
    {
        if pending[i].turn.same_id(turn) {
            return true;
        }
        i += 1;
    }
    false
}

fn push_request(pending: &PendingInterrupt, effects: &mut Vec<ReducerEffect>)
    ensures
        final(effects)@ == old(effects)@ + requesting(*pending),
{
    let ghost before = effects@;
    effects.push(
        ReducerEffect::Interrupt {
            turn: pending.turn.clone(),
            generation: pending.generation,
            operation_id: pending.operation_id,
            attempt: pending.attempt,
        },
    );
    effects.push(
        ReducerEffect::ScheduleInterruptAck {
            turn: pending.turn.clone(),
            generation: pending.generation,
            operation_id: pending.operation_id,
            attempt: pending.attempt,
            deadline: pending.ack_deadline,
        },
    );
    assert(effects@ =~= before + requesting(*pending));
}

/// Interrupts each owned turn of an episode that was closed in this generation; gives the next
/// operation id and the effects.
pub fn finalize_closed_episode(
    account: &mut AccountRuntime,
    next_operation_id: u64,
    generation: u64,
    transition_id: u64,
    now_ms: i64,
) -> (r: (u64, Vec<ReducerEffect>))
    ensures
        ({
            let (next, id, effects) = after_finalized(
                old(account)@,
                next_operation_id,
                generation,
                transition_id,
                now_ms,
            );
            final(account)@ == next && r.0 == id && r.1@ == effects
        }),
{
    let mut effects: Vec<ReducerEffect> = Vec::new();
    if account.phase != QuotaGuardPhase::Tripped || transition_id != generation {
        return (next_operation_id, effects);
    }
    let mut id: u64 = next_operation_id;
    account.updated_at = now_ms;
    let ghost before = account@;
    let ghost turns = account.local_turn_registry@;
    let mut i: usize = 0;
    while i < account.local_turn_registry.len()
        invariant
            i <= turns.len(),
            account.local_turn_registry@ == turns,
            account@ == (AccountView {
                pending_interrupt_index: account.pending_interrupt_index@,
                ..before
            }),
            (account.pending_interrupt_index@, id, effects@) == requests_for(
                turns.take(i as int),
                before.pending_interrupt_index,
                next_operation_id,
                generation,
                now_ms,
            ),
        decreases turns.len() - i,
    {
        proof {
            assert(turns.take(i + 1).drop_last() =~= turns.take(i as int));
            assert(turns.take(i + 1).last() == turns[i as int]);
        }
        if !has_request(&account.pending_interrupt_index, &account.local_turn_registry[i]) {
            let request = PendingInterrupt {
                turn: account.local_turn_registry[i].clone(),
                generation,
                operation_id: id,
                attempt: 1,
                acknowledged: false,
                ack_deadline: deadline_after(now_ms),
                completion_deadline: None,
            };
            push_request(&request, &mut effects);
            place_interrupt(&mut account.pending_interrupt_index, request);
            id = id.saturating_add(1);
        }
        i += 1;
    }
    assert(turns.take(turns.len() as int) =~= turns);
    (id, effects)
}

fn find_request(
    pending: &Vec<PendingInterrupt>,
    turn: &TurnKey,
    generation: u64,
    operation_id: u64,
    attempt: u8,
) -> (r: Option<usize>)
    ensures
        match r {
            Some(at) => request_at(pending@, *turn, generation, operation_id, attempt) == Some(
                at as int,
            ) && at < pending@.len(),
            None => request_at(pending@, *turn, generation, operation_id, attempt) is None,
        },
{
    let wanted = |p: &PendingInterrupt| -> (b: bool)
        ensures
            b == is_request(*p, *turn, generation, operation_id, attempt),
    {
        p.turn.same_id(turn) && p.generation == generation && p.operation_id == operation_id
            && p.attempt == attempt
    };
    position_where(
        pending,
        wanted,
        Ghost(|p: PendingInterrupt| is_request(p, *turn, generation, operation_id, attempt)),
    )
}

/// Notes that a request was acknowledged; gives the effects.
pub fn acknowledge(
    account: &mut AccountRuntime,
    turn: &TurnKey,
    generation: u64,
    operation_id: u64,
    attempt: u8,
    now_ms: i64,
) -> (effects: Vec<ReducerEffect>)
    ensures
        final(account)@ == after_acknowledged(
            old(account)@,
            *turn,
            generation,
            operation_id,
            attempt,
            now_ms,
        ).0,
        effects@ == after_acknowledged(
            old(account)@,
            *turn,
            generation,
            operation_id,
            attempt,
            now_ms,
        ).1,
{
    let mut effects: Vec<ReducerEffect> = Vec::new();
    let found = find_request(
        &account.pending_interrupt_index,
        turn,
        generation,
        operation_id,
        attempt,
    );
    if let Some(i) = found {
        if !account.pending_interrupt_index[i].acknowledged {
            let deadline: i64 = deadline_after(now_ms);
            let ghost before = account.pending_interrupt_index@;
            let mut pending = account.pending_interrupt_index.remove(i);
            effects.push(
                ReducerEffect::ScheduleInterruptCompletion {
                    turn: pending.turn.clone(),
                    generation: pending.generation,
                    operation_id: pending.operation_id,
                    attempt: pending.attempt,
                    deadline,
                },
            );
            pending.acknowledged = true;
            pending.completion_deadline = Some(deadline);
            account.pending_interrupt_index.insert(i, pending);
            assert(account.pending_interrupt_index@ =~= before.update(i as int, pending));
            account.updated_at = now_ms;
        }
    }
    effects
}

fn push_reconciling(pending: &PendingInterrupt, effects: &mut Vec<ReducerEffect>)
    ensures
        final(effects)@ == old(effects)@.push(reconciling(*pending)),
{
    effects.push(
        ReducerEffect::ReconcileThread {
            turn: pending.turn.clone(),
            generation: pending.generation,
            operation_id: pending.operation_id,
            attempt: pending.attempt,
        },
    );
}

/// What is done when a timer of a request runs out.
pub fn deadline_effects(
    account: &AccountRuntime,
    turn: &TurnKey,
    generation: u64,
    operation_id: u64,
    attempt: u8,
    acknowledgement: bool,
    now_ms: i64,
) -> (effects: Vec<ReducerEffect>)
    ensures
        effects@ == at_deadline(
            account@,
            *turn,
            generation,
            operation_id,
            attempt,
            acknowledgement,
            now_ms,
        ),
{
    let mut effects: Vec<ReducerEffect> = Vec::new();
    let found = find_request(
        &account.pending_interrupt_index,
        turn,
        generation,
        operation_id,
        attempt,
    );
    if let Some(i) = found {
        let pending = &account.pending_interrupt_index[i];
        let late = if acknowledgement {
            !pending.acknowledged && now_ms >= pending.ack_deadline
        } else {
            match pending.completion_deadline {
                Some(deadline) => now_ms >= deadline,
                None => false,
            }
        };
        if late {
            push_reconciling(pending, &mut effects);
        }
    }
    effects
}

/// Lets a turn go: it is neither owned nor to be interrupted.
pub fn disown(account: &mut AccountRuntime, turn: &TurnKey)
    ensures
        final(account)@ == disowned(old(account)@, *turn),
{
    let keep = |known: &TurnKey| -> (b: bool)
        ensures
            b == (known.id() != turn.id()),
    { !known.same_id(turn) };
    retain_where(
        &mut account.local_turn_registry,
        keep,
        Ghost(|known: TurnKey| known.id() != turn.id()),
    );
    let keep = |p: &PendingInterrupt| -> (b: bool)
        ensures
            b == (p.turn.id() != turn.id()),
    { !p.turn.same_id(turn) };
    retain_where(
        &mut account.pending_interrupt_index,
        keep,
        Ghost(|p: PendingInterrupt| p.turn.id() != turn.id()),
    );
}

/// Notes which turn of the thread is active; gives the effects.
pub fn reconcile(
    account: &mut AccountRuntime,
    turn: &TurnKey,
    generation: u64,
    operation_id: u64,
    attempt: u8,
    active_turn_id: &Option<String>,
    now_ms: i64,
) -> (effects: Vec<ReducerEffect>)
    ensures
        final(account)@ == after_reconciled(
            old(account)@,
            *turn,
            generation,
            operation_id,
            attempt,
            crate::model::text_view(*active_turn_id),
            now_ms,
        ).0,
        effects@ == after_reconciled(
            old(account)@,
            *turn,
            generation,
            operation_id,
            attempt,
            crate::model::text_view(*active_turn_id),
            now_ms,
        ).1,
{
    let mut effects: Vec<ReducerEffect> = Vec::new();
    let found = find_request(
        &account.pending_interrupt_index,
        turn,
        generation,
        operation_id,
        attempt,
    );
    let i: usize = match found {
        Some(i) => i,
        None => {
            return effects;
        },
    };
    let active = match active_turn_id {
        Some(id) => same_text(id.as_str(), turn.turn_id.as_str()),
        None => false,
    };
    if active && account.phase != QuotaGuardPhase::Tripped {
        return effects;
    }
    account.updated_at = now_ms;
    if !active {
        disown(account, turn);
    } else if attempt < INTERRUPT_ATTEMPTS {
        let ghost before = account.pending_interrupt_index@;
        let mut pending = account.pending_interrupt_index.remove(i);
        pending.attempt = INTERRUPT_ATTEMPTS;
        pending.acknowledged = false;
        pending.ack_deadline = deadline_after(now_ms);
        pending.completion_deadline = None;
        push_request(&pending, &mut effects);
        account.pending_interrupt_index.insert(i, pending);
        assert(account.pending_interrupt_index@ =~= before.update(i as int, pending));
    } else {
        account.phase = QuotaGuardPhase::InterventionRequired;
        account.last_error = Some(INTERRUPT_UNCONFIRMED.to_owned());
        effects.push(ReducerEffect::SetProcessClosed);
    }
    effects
}

/// What the pending requests need after a restart.
pub fn rehydrate(account: &AccountRuntime) -> (effects: Vec<ReducerEffect>)
    ensures
        effects@ == rehydrated(account@.pending_interrupt_index),
{
    let ghost all = account.pending_interrupt_index@;
    let mut effects: Vec<ReducerEffect> = Vec::new();
    let mut i: usize = 0;
    while i < account.pending_interrupt_index.len()
        invariant
            i <= all.len(),
            all == account.pending_interrupt_index@,
            effects@ == rehydrated(all.take(i as int)),
        decreases all.len() - i,
    {
        let pending = &account.pending_interrupt_index[i];
        let ghost before = effects@;
        push_reconciling(pending, &mut effects);
        match pending.completion_deadline {
            Some(deadline) => {
                effects.push(
                    ReducerEffect::ScheduleInterruptCompletion {
                        turn: pending.turn.clone(),
                        generation: pending.generation,
                        operation_id: pending.operation_id,
                        attempt: pending.attempt,
                        deadline,
                    },
                );
            },
            None => {
                effects.push(
                    ReducerEffect::ScheduleInterruptAck {
                        turn: pending.turn.clone(),
                        generation: pending.generation,
                        operation_id: pending.operation_id,
                        attempt: pending.attempt,
                        deadline: pending.ack_deadline,
                    },
                );
            },
        }
        proof {
            assert(effects@ =~= before + resuming(all[i as int]));
            assert(all.take(i + 1).drop_last() =~= all.take(i as int));
            assert(all.take(i + 1).last() == all[i as int]);
        }
        i += 1;
    }
    assert(all.take(all.len() as int) =~= all);
    effects
}

/// What has been added to the pending requests is one more, and what was pending still is.
proof fn lemma_request_added(pending: Seq<PendingInterrupt>, request: PendingInterrupt)
    ensures
        with_interrupt(pending, request).contains(request),
        forall|p: PendingInterrupt| #[trigger]
            with_interrupt(pending, request).contains(p) <==> p == request || pending.contains(p),
{
    let at = lemma_placed(
        pending,
        request,
        |known: PendingInterrupt| precedes(request.turn.id(), known.turn.id()),
    );
    let after = with_interrupt(pending, request);
    assert(after[at] == request);
    assert forall|p: PendingInterrupt| #[trigger] after.contains(p) <==> p == request
        || pending.contains(p) by {
        if pending.contains(p) {
            let k = choose|k: int| 0 <= k < pending.len() && pending[k] == p;
            assert(after[if k < at { k } else { k + 1 }] == p);
        }
        if after.contains(p) && p != request {
            let k = choose|k: int| 0 <= k < after.len() && after[k] == p;
            assert(pending[if k < at { k } else { k - 1 }] == p);
        }
    }
}

/// Requesting interrupts keeps the requests that are pending, leaves each of the turns with one,
/// gives none a second and adds none for another turn. The requests stay in order.
pub proof fn requests_are_added_once(
    turns: Seq<TurnKey>,
    pending: Seq<PendingInterrupt>,
    next_operation_id: u64,
    generation: u64,
    now_ms: i64,
)
    requires
        unique_interrupts(pending),
    ensures
        ({
            let after = requests_for(turns, pending, next_operation_id, generation, now_ms).0;
            &&& unique_interrupts(after)
            &&& ordered_interrupts(pending) ==> ordered_interrupts(after)
            &&& forall|p: PendingInterrupt| #[trigger] pending.contains(p) ==> after.contains(p)
            &&& forall|p: PendingInterrupt| #[trigger]
                after.contains(p) ==> pending.contains(p) || among(turns, p.turn)
            &&& forall|i: int| 0 <= i < turns.len() ==> is_pending(after, #[trigger] turns[i])
        }),
    decreases turns.len(),
{
    if turns.len() > 0 {
        let rest = turns.drop_last();
        requests_are_added_once(rest, pending, next_operation_id, generation, now_ms);
        let (known, id, effects) = requests_for(
            rest,
            pending,
            next_operation_id,
            generation,
            now_ms,
        );
        let turn = turns.last();
        let after = requests_for(turns, pending, next_operation_id, generation, now_ms).0;
        let request = first_request(turn, generation, id, now_ms);
        if !is_pending(known, turn) {
            assert(after == with_interrupt(known, request));
            interrupts_stay_ordered(known, request);
            lemma_request_added(known, request);
        }
        assert forall|p: PendingInterrupt| #[trigger] after.contains(p) implies pending.contains(p)
            || among(turns, p.turn) by {
            if known.contains(p) {
                if !pending.contains(p) {
                    let k = choose|k: int|
                        0 <= k < rest.len() && (#[trigger] rest[k]).id() == p.turn.id();
                    assert(turns[k].id() == p.turn.id());
                }
            } else {
                assert(turns[turns.len() - 1].id() == p.turn.id());
            }
        }
        assert forall|i: int| 0 <= i < turns.len() implies is_pending(
            after,
            #[trigger] turns[i],
        ) by {
            if i < rest.len() {
                assert(is_pending(known, rest[i]));
                let k = choose|k: int|
                    0 <= k < known.len() && (#[trigger] known[k]).turn.id() == rest[i].id();
                assert(known.contains(known[k]));
                assert(after.contains(known[k]));
                let l = choose|l: int| 0 <= l < after.len() && after[l] == known[k];
                assert(after[l].turn.id() == turns[i].id());
            } else if !is_pending(known, turn) {
                let l = choose|l: int| 0 <= l < after.len() && after[l] == request;
                assert(after[l].turn.id() == turn.id());
            }
        }
    }
}

proof fn lemma_nothing_to_request(
    turns: Seq<TurnKey>,
    pending: Seq<PendingInterrupt>,
    next_operation_id: u64,
    generation: u64,
    now_ms: i64,
)
    requires
        forall|i: int| 0 <= i < turns.len() ==> is_pending(pending, #[trigger] turns[i]),
    ensures
        requests_for(turns, pending, next_operation_id, generation, now_ms) == (
            pending,
            next_operation_id,
            Seq::<ReducerEffect>::empty(),
        ),
    decreases turns.len(),
{
    if turns.len() > 0 {
        assert forall|i: int| 0 <= i < turns.drop_last().len() implies is_pending(
            pending,
            #[trigger] turns.drop_last()[i],
        ) by {
            assert(is_pending(pending, turns[i]));
        }
        lemma_nothing_to_request(
            turns.drop_last(),
            pending,
            next_operation_id,
            generation,
            now_ms,
        );
        assert(is_pending(pending, turns[turns.len() - 1]));
    }
}

/// Once a closed episode has been finalized, each owned turn has a pending request.
pub proof fn finalizing_interrupts_every_owned_turn(
    account: AccountView,
    next_operation_id: u64,
    generation: u64,
    now_ms: i64,
    turn: TurnKey,
)
    requires
        account.well_formed(),
        account.phase == QuotaGuardPhase::Tripped,
        account.owns(turn),
    ensures
        is_pending(
            after_finalized(
                account,
                next_operation_id,
                generation,
                generation,
                now_ms,
            ).0.pending_interrupt_index,
            turn,
        ),
{
    let turns = account.local_turn_registry;
    requests_are_added_once(
        turns,
        account.pending_interrupt_index,
        next_operation_id,
        generation,
        now_ms,
    );
    let i = choose|i: int| 0 <= i < turns.len() && (#[trigger] turns[i]).id() == turn.id();
    assert(is_pending(
        after_finalized(
            account,
            next_operation_id,
            generation,
            generation,
            now_ms,
        ).0.pending_interrupt_index,
        turns[i],
    ));
}

/// Finalizing a second time requests nothing.
pub proof fn finalizing_twice_requests_once(
    account: AccountView,
    next_operation_id: u64,
    generation: u64,
    transition_id: u64,
    now_ms: i64,
    later_ms: i64,
)
    requires
        account.well_formed(),
    ensures
        ({
            let (first, id, _) = after_finalized(
                account,
                next_operation_id,
                generation,
                transition_id,
                now_ms,
            );
            let (second, second_id, effects) = after_finalized(
                first,
                id,
                generation,
                transition_id,
                later_ms,
            );
            &&& effects == Seq::<ReducerEffect>::empty()
            &&& second_id == id
            &&& second.pending_interrupt_index == first.pending_interrupt_index
        }),
{
    let (first, id, _) = after_finalized(
        account,
        next_operation_id,
        generation,
        transition_id,
        now_ms,
    );
    if account.phase == QuotaGuardPhase::Tripped && transition_id == generation {
        requests_are_added_once(
            account.local_turn_registry,
            account.pending_interrupt_index,
            next_operation_id,
            generation,
            now_ms,
        );
        lemma_nothing_to_request(
            account.local_turn_registry,
            first.pending_interrupt_index,
            id,
            generation,
            later_ms,
        );
    }
}

/// An episode of another generation is not finalized.
pub proof fn a_stale_episode_is_not_finalized(
    account: AccountView,
    next_operation_id: u64,
    generation: u64,
    transition_id: u64,
    now_ms: i64,
)
    requires
        transition_id != generation,
    ensures
        after_finalized(account, next_operation_id, generation, transition_id, now_ms) == (
            account,
            next_operation_id,
            Seq::<ReducerEffect>::empty(),
        ),
{
}

/// What concerns a request that is not pending, because its turn, generation, operation or
/// attempt is another, changes nothing and does nothing.
pub proof fn only_the_exact_request_is_answered(
    account: AccountView,
    turn: TurnKey,
    generation: u64,
    operation_id: u64,
    attempt: u8,
    acknowledgement: bool,
    active_turn_id: Option<Seq<char>>,
    now_ms: i64,
)
    requires
        forall|i: int|
            0 <= i < account.pending_interrupt_index.len() ==> !is_request(
                #[trigger] account.pending_interrupt_index[i],
                turn,
                generation,
                operation_id,
                attempt,
            ),
    ensures
        after_acknowledged(account, turn, generation, operation_id, attempt, now_ms) == (
            account,
            Seq::<ReducerEffect>::empty(),
        ),
        at_deadline(
            account,
            turn,
            generation,
            operation_id,
            attempt,
            acknowledgement,
            now_ms,
        ) == Seq::<ReducerEffect>::empty(),
        after_reconciled(
            account,
            turn,
            generation,
            operation_id,
            attempt,
            active_turn_id,
            now_ms,
        ) == (account, Seq::<ReducerEffect>::empty()),
{
    lemma_first_where_found(
        account.pending_interrupt_index,
        |p: PendingInterrupt| is_request(p, turn, generation, operation_id, attempt),
    );
}

/// Once a request is acknowledged, its acknowledgement timer does nothing, and the timer for
/// the end of the turn does nothing before its deadline.
pub proof fn early_and_stale_timers_do_nothing(
    account: AccountView,
    turn: TurnKey,
    generation: u64,
    operation_id: u64,
    attempt: u8,
    acknowledged_ms: i64,
    now_ms: i64,
)
    requires
        request_at(
            account.pending_interrupt_index,
            turn,
            generation,
            operation_id,
            attempt,
        ) is Some,
        !account.pending_interrupt_index[request_at(
            account.pending_interrupt_index,
            turn,
            generation,
            operation_id,
            attempt,
        )->0].acknowledged,
    ensures
        ({
            let after = after_acknowledged(
                account,
                turn,
                generation,
                operation_id,
                attempt,
                acknowledged_ms,
            ).0;
            &&& at_deadline(after, turn, generation, operation_id, attempt, true, now_ms)
                == Seq::<ReducerEffect>::empty()
            &&& now_ms < confirmation_deadline(acknowledged_ms) ==> at_deadline(
                after,
                turn,
                generation,
                operation_id,
                attempt,
                false,
                now_ms,
            ) == Seq::<ReducerEffect>::empty()
        }),
{
    let requests = account.pending_interrupt_index;
    let wanted = |p: PendingInterrupt| is_request(p, turn, generation, operation_id, attempt);
    lemma_first_where_found(requests, wanted);
    let at = request_at(requests, turn, generation, operation_id, attempt)->0;
    let after = after_acknowledged(
        account,
        turn,
        generation,
        operation_id,
        attempt,
        acknowledged_ms,
    ).0.pending_interrupt_index;
    assert forall|i: int| 0 <= i < at implies !wanted(#[trigger] after[i]) by {
        assert(!wanted(requests[i]));
    }
    lemma_first_where(after, wanted, at);
}

/// A turn that outlives its interrupt is interrupted once more after the first attempt; after
/// the second, nothing more is requested, the process is closed and intervention asked for.
pub proof fn one_retry_and_intervention(
    account: AccountView,
    turn: TurnKey,
    generation: u64,
    operation_id: u64,
    attempt: u8,
    now_ms: i64,
)
    requires
        account.phase == QuotaGuardPhase::Tripped,
        request_at(
            account.pending_interrupt_index,
            turn,
            generation,
            operation_id,
            attempt,
        ) is Some,
    ensures
        ({
            let at = request_at(
                account.pending_interrupt_index,
                turn,
                generation,
                operation_id,
                attempt,
            )->0;
            let (next, effects) = after_reconciled(
                account,
                turn,
                generation,
                operation_id,
                attempt,
                Some(turn.turn_id@),
                now_ms,
            );
            &&& attempt == 1 ==> next.pending_interrupt_index[at].attempt == 2 && effects
                == requesting(next.pending_interrupt_index[at]) && next.phase == account.phase
            &&& attempt == 2 ==> next.phase == QuotaGuardPhase::InterventionRequired && effects
                == seq![ReducerEffect::SetProcessClosed]
        }),
{
    lemma_first_where_found(
        account.pending_interrupt_index,
        |p: PendingInterrupt| is_request(p, turn, generation, operation_id, attempt),
    );
}

} // verus!
