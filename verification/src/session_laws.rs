//! Which session serves which workspace, and what a request leaves behind, stated on what the
//! sessions, the process gate and the reports hold.

use crate::collections::{adding_a_text_keeps_the_others, removing_a_text_keeps_the_others};
use crate::connect::{
    references_removed, serves, shares, Connected, ConnectStep, TableView, WorkspacePath,
};
use crate::events::EventView;
use crate::gate::GateView;
use crate::json::JsonView;
use crate::model::text_view;
use crate::request::counts;
use crate::sending::{sends, sets_out, SendAction, SendStage, SendView, Sending};
use crate::session::{all_revoked, SessionView};
use crate::threads::normalized_root;
use vstd::prelude::*;

verus! {

spec fn elsewhere(workspace_id: Seq<char>) -> spec_fn((Seq<char>, Seq<char>)) -> bool {
    |root: (Seq<char>, Seq<char>)| root.0 != workspace_id
}

/// A workspace that is registered is known, once; with a path that is not empty its root is that
/// path, and it has no other. The other workspaces and their roots stay.
pub proof fn a_registered_workspace_has_one_root(
    session: SessionView,
    workspace_id: Seq<char>,
    path: Option<Seq<char>>,
    other: Seq<char>,
    root: (Seq<char>, Seq<char>),
)
    ensures
        ({
            let after = session.registered(workspace_id, path);
            let named = path is Some && normalized_root(path->0).len() > 0;
            &&& after.workspace_ids.contains(workspace_id)
            &&& session.workspace_ids.contains(workspace_id) ==> after.workspace_ids
                == session.workspace_ids
            &&& other != workspace_id ==> (after.workspace_ids.contains(other)
                <==> session.workspace_ids.contains(other))
            &&& !named ==> after.workspace_roots == session.workspace_roots
            &&& named ==> after.workspace_roots.contains(
                (workspace_id, normalized_root(path->0)),
            )
            &&& named && root.0 == workspace_id && after.workspace_roots.contains(root) ==> root.1
                == normalized_root(path->0)
            &&& root.0 != workspace_id ==> (after.workspace_roots.contains(root)
                <==> session.workspace_roots.contains(root))
            &&& after == (SessionView {
                workspace_ids: after.workspace_ids,
                workspace_roots: after.workspace_roots,
                ..session
            })
        }),
{
    adding_a_text_keeps_the_others(session.workspace_ids, workspace_id, workspace_id);
    adding_a_text_keeps_the_others(session.workspace_ids, workspace_id, other);
    let keep = elsewhere(workspace_id);
    crate::search::lemma_filtered(session.workspace_roots, keep);
    let kept = session.workspace_roots.filter(keep);
    if path is Some && normalized_root(path->0).len() > 0 {
        let added = (workspace_id, normalized_root(path->0));
        let after = session.registered(workspace_id, path).workspace_roots;
        assert(after == kept.push(added));
        assert(after[kept.len() as int] == added);
        if kept.contains(root) {
            let k = choose|k: int| 0 <= k < kept.len() && kept[k] == root;
            assert(after[k] == root);
        }
        if after.contains(root) && root != added {
            let k = choose|k: int| 0 <= k < after.len() && after[k] == root;
            assert(kept[k] == root);
            assert(kept.contains(root));
        }
    }
}

/// A workspace that is let go is no longer known, bound or rooted in the session; the others are as
/// before, and so are the threads and the requests.
pub proof fn a_workspace_that_is_let_go_is_forgotten(
    session: SessionView,
    workspace_id: Seq<char>,
    other: Seq<char>,
    root: (Seq<char>, Seq<char>),
)
    ensures
        ({
            let after = session.revoked(workspace_id);
            &&& !after.workspace_ids.contains(workspace_id)
            &&& !after.bound_workspace_ids.contains(workspace_id)
            &&& after.workspace_roots.contains(root) <==> session.workspace_roots.contains(root)
                && root.0 != workspace_id
            &&& other != workspace_id ==> (after.workspace_ids.contains(other)
                <==> session.workspace_ids.contains(other))
            &&& other != workspace_id ==> (after.bound_workspace_ids.contains(other)
                <==> session.bound_workspace_ids.contains(other))
            &&& after == (SessionView {
                workspace_ids: after.workspace_ids,
                workspace_roots: after.workspace_roots,
                bound_workspace_ids: after.bound_workspace_ids,
                ..session
            })
        }),
{
    removing_a_text_keeps_the_others(session.workspace_ids, workspace_id, other);
    removing_a_text_keeps_the_others(session.bound_workspace_ids, workspace_id, other);
    let keep = elsewhere(workspace_id);
    crate::search::lemma_filtered(session.workspace_roots, keep);
    assert(session.revoked(workspace_id).workspace_roots == session.workspace_roots.filter(keep));
}

/// When a session ends, each workspace that was bound to it is reported as disconnected, and none
/// stays bound or admitted in it; what other sessions hold stays.
pub proof fn an_ended_session_reports_its_workspaces(
    session: SessionView,
    permits: Map<(Seq<char>, Seq<char>), bool>,
    ids: Seq<Seq<char>>,
    id: Seq<char>,
    key: (Seq<char>, Seq<char>),
)
    requires
        ids.contains(id),
    ensures
        ({
            let (after, held, events) = all_revoked(session, permits, ids);
            &&& session.bound_workspace_ids.contains(id) ==> events.contains(
                EventView::WorkspaceDisconnected {
                    session_epoch: session.session_epoch,
                    workspace_id: id,
                },
            )
            &&& !after.bound_workspace_ids.contains(id)
            &&& !after.workspace_ids.contains(id)
            &&& key.0 != session.session_epoch ==> (held.dom().contains(key)
                <==> permits.dom().contains(key))
            &&& key.0 != session.session_epoch && permits.dom().contains(key) ==> held[key]
                == permits[key]
            &&& !held.dom().contains((session.session_epoch, id))
        }),
    decreases ids.len(),
{
    lemma_all_revoked(session, permits, ids, id, key);
}

proof fn lemma_all_revoked(
    session: SessionView,
    permits: Map<(Seq<char>, Seq<char>), bool>,
    ids: Seq<Seq<char>>,
    id: Seq<char>,
    key: (Seq<char>, Seq<char>),
)
    ensures
        ({
            let (after, held, events) = all_revoked(session, permits, ids);
            let gone = EventView::WorkspaceDisconnected {
                session_epoch: session.session_epoch,
                workspace_id: id,
            };
            &&& after.session_epoch == session.session_epoch
            &&& ids.contains(id) && session.bound_workspace_ids.contains(id) ==> events.contains(
                gone,
            )
            &&& ids.contains(id) ==> !after.bound_workspace_ids.contains(id)
                && !after.workspace_ids.contains(id) && !held.dom().contains(
                (session.session_epoch, id),
            )
            &&& !ids.contains(id) ==> (after.bound_workspace_ids.contains(id)
                <==> session.bound_workspace_ids.contains(id))
            &&& key.0 != session.session_epoch ==> (held.dom().contains(key)
                <==> permits.dom().contains(key))
            &&& key.0 != session.session_epoch && permits.dom().contains(key) ==> held[key]
                == permits[key]
        }),
    decreases ids.len(),
{
    if ids.len() > 0 {
        let rest = ids.drop_last();
        let last = ids.last();
        lemma_all_revoked(session, permits, rest, id, key);
        lemma_all_revoked(session, permits, rest, last, key);
        let (before, held, events) = all_revoked(session, permits, rest);
        a_workspace_that_is_let_go_is_forgotten(before, last, id, (seq![], seq![]));
        let (after, left, all) = all_revoked(session, permits, ids);
        let gone = EventView::WorkspaceDisconnected {
            session_epoch: session.session_epoch,
            workspace_id: id,
        };
        if ids.contains(id) && id != last {
            let k = choose|k: int| 0 <= k < ids.len() && ids[k] == id;
            assert(rest[k] == id);
            assert(rest.contains(id));
        }
        if rest.contains(id) {
            let k = choose|k: int| 0 <= k < rest.len() && rest[k] == id;
            assert(ids[k] == id);
        }
        if id == last {
            assert(ids[ids.len() - 1] == id);
        }
        if events.contains(gone) {
            let k = choose|k: int| 0 <= k < events.len() && events[k] == gone;
            assert(all[k] == gone);
        }
        if id == last && !rest.contains(id) && session.bound_workspace_ids.contains(id) {
            assert(before.bound_workspace_ids.contains(id));
            assert(all[events.len() as int] == gone);
        }
    }
}

/// A workspace that is bound to a session is served by it, known and bound there; where it was not
/// bound yet it is not admitted, and is reported with the session and its home. Bound before, it
/// keeps its permit and is not reported again.
pub proof fn binding_reports_once_and_starts_closed(
    start: Connected,
    session: u64,
    workspace_id: Seq<char>,
    path: Option<Seq<char>>,
)
    requires
        start.table.sessions.dom().contains(session),
    ensures
        ({
            let end = start.bind(session, workspace_id, path);
            let state = start.table.sessions[session];
            let key = (state.session_epoch, workspace_id);
            let bound = state.bound_workspace_ids.contains(workspace_id);
            &&& end.table.mapping == start.table.mapping
            &&& end.table.sessions[session].bound_workspace_ids.contains(workspace_id)
            &&& end.table.sessions[session].workspace_ids.contains(workspace_id)
            &&& forall|other: u64|
                other != session && start.table.sessions.dom().contains(other)
                    ==> #[trigger] end.table.sessions[other] == start.table.sessions[other]
            &&& bound ==> end.gate == start.gate && end.events == start.events
            &&& !bound ==> end.gate == (GateView {
                permits: start.gate.permits.insert(key, false),
                ..start.gate
            })
            &&& !bound ==> end.events == start.events.push(
                EventView::WorkspaceBound {
                    session_epoch: state.session_epoch,
                    workspace_id,
                    canonical_codex_home: state.canonical_codex_home,
                },
            )
        }),
{
    let state = start.table.sessions[session];
    adding_a_text_keeps_the_others(state.bound_workspace_ids, workspace_id, workspace_id);
    adding_a_text_keeps_the_others(state.workspace_ids, workspace_id, workspace_id);
}

/// A workspace that moves to another session is let go by the one that served it first: its permit
/// there is gone and, where it was bound, that is reported before the new binding. From then on the
/// new session serves it, and what the other workspaces are served by stays.
pub proof fn a_moved_workspace_leaves_its_old_session(
    start: Connected,
    session: u64,
    old_session: u64,
    workspace_id: Seq<char>,
    path: Option<Seq<char>>,
)
    requires
        start.table.sessions.dom().contains(session),
        start.table.sessions.dom().contains(old_session),
        start.table.mapping.dom().contains(workspace_id),
        start.table.mapping[workspace_id] == old_session,
        old_session != session,
        start.table.sessions[old_session].session_epoch
            != start.table.sessions[session].session_epoch,
        start.events.len() == 0,
    ensures
        ({
            let end = start.bind_session(session, workspace_id, path);
            let old_state = start.table.sessions[old_session];
            &&& end.table.mapping == start.table.mapping.insert(workspace_id, session)
            &&& !end.gate.permits.dom().contains((old_state.session_epoch, workspace_id))
            &&& !end.table.sessions[old_session].bound_workspace_ids.contains(workspace_id)
            &&& end.table.sessions[session].bound_workspace_ids.contains(workspace_id)
            &&& old_state.bound_workspace_ids.contains(workspace_id) ==> end.events.len() > 0
                && end.events[0] == (EventView::WorkspaceDisconnected {
                session_epoch: old_state.session_epoch,
                workspace_id,
            })
        }),
{
    let old_state = start.table.sessions[old_session];
    removing_a_text_keeps_the_others(
        old_state.bound_workspace_ids,
        workspace_id,
        workspace_id,
    );
    adding_a_text_keeps_the_others(
        start.table.sessions[session].bound_workspace_ids,
        workspace_id,
        workspace_id,
    );
}

/// A workspace that is unbound is served by no session: its permit is gone, it is no longer bound,
/// and where it was, that is reported. The other workspaces keep their sessions.
pub proof fn an_unbound_workspace_is_served_by_none(
    start: Connected,
    workspace_id: Seq<char>,
)
    requires
        start.table.mapping.dom().contains(workspace_id),
        start.table.sessions.dom().contains(start.table.mapping[workspace_id]),
    ensures
        ({
            let end = start.unbind(workspace_id);
            let session = start.table.mapping[workspace_id];
            let state = start.table.sessions[session];
            &&& end.table.mapping == start.table.mapping.remove(workspace_id)
            &&& end.gate == (GateView {
                permits: start.gate.permits.remove((state.session_epoch, workspace_id)),
                ..start.gate
            })
            &&& !end.table.sessions[session].bound_workspace_ids.contains(workspace_id)
            &&& state.bound_workspace_ids.contains(workspace_id) ==> end.events
                == start.events.push(
                EventView::WorkspaceDisconnected {
                    session_epoch: state.session_epoch,
                    workspace_id,
                },
            )
            &&& !state.bound_workspace_ids.contains(workspace_id) ==> end.events == start.events
        }),
{
    let session = start.table.mapping[workspace_id];
    removing_a_text_keeps_the_others(
        start.table.sessions[session].bound_workspace_ids,
        workspace_id,
        workspace_id,
    );
}

/// When a session takes the place of another, each of the given workspaces that the old one served
/// is served by the new one, and every other workspace by the one that served it.
pub proof fn a_swap_moves_what_the_old_session_served(
    start: Connected,
    old_session: u64,
    new_session: u64,
    workspaces: Seq<WorkspacePath>,
    id: Seq<char>,
)
    ensures
        ({
            let end = start.remap_all(old_session, new_session, workspaces);
            let given = exists|i: int| 0 <= i < workspaces.len() && (#[trigger] workspaces[i]).0@ == id;
            let served = start.table.mapping.dom().contains(id) && start.table.mapping[id]
                == old_session;
            &&& given && served ==> end.table.mapping.dom().contains(id) && end.table.mapping[id]
                == new_session
            &&& !(given && served) ==> (end.table.mapping.dom().contains(id)
                <==> start.table.mapping.dom().contains(id)) && (
            start.table.mapping.dom().contains(id) ==> end.table.mapping[id]
                == start.table.mapping[id])
            &&& end.table.sessions == start.table.sessions
            &&& end.gate == start.gate
            &&& end.events == start.events
        }),
    decreases workspaces.len(),
{
    if workspaces.len() > 0 {
        let rest = workspaces.drop_last();
        a_swap_moves_what_the_old_session_served(start, old_session, new_session, rest, id);
        let given = exists|i: int| 0 <= i < workspaces.len() && (#[trigger] workspaces[i]).0@ == id;
        if exists|i: int| 0 <= i < rest.len() && (#[trigger] rest[i]).0@ == id {
            let i = choose|i: int| 0 <= i < rest.len() && (#[trigger] rest[i]).0@ == id;
            assert(workspaces[i].0@ == id);
        }
        if given && workspaces.last().0@ != id {
            let i = choose|i: int| 0 <= i < workspaces.len() && (#[trigger] workspaces[i]).0@ == id;
            assert(rest[i].0@ == id);
        }
        if workspaces.last().0@ == id {
            assert(workspaces[workspaces.len() - 1].0@ == id);
        }
    }
}

/// Binding workspaces one after the other binds each of them to the session and changes no other
/// session.
pub proof fn a_swap_binds_every_workspace(
    start: Connected,
    session: u64,
    workspaces: Seq<WorkspacePath>,
    i: int,
)
    requires
        start.table.sessions.dom().contains(session),
        0 <= i < workspaces.len(),
    ensures
        ({
            let end = start.bind_all(session, workspaces);
            &&& end.table.mapping == start.table.mapping
            &&& end.table.sessions.dom().contains(session)
            &&& end.table.sessions[session].bound_workspace_ids.contains(workspaces[i].0@)
            &&& end.table.sessions[session].session_epoch
                == start.table.sessions[session].session_epoch
        }),
    decreases workspaces.len(),
{
    lemma_bound_stay(start, session, workspaces.drop_last());
    let before = start.bind_all(session, workspaces.drop_last());
    let last = workspaces.last().0@;
    let known = before.table.sessions[session].bound_workspace_ids;
    adding_a_text_keeps_the_others(known, last, last);
    adding_a_text_keeps_the_others(known, last, workspaces[i].0@);
    if i < workspaces.len() - 1 {
        a_swap_binds_every_workspace(start, session, workspaces.drop_last(), i);
        assert(workspaces.drop_last()[i] == workspaces[i]);
    }
}

proof fn lemma_bound_stay(start: Connected, session: u64, workspaces: Seq<WorkspacePath>)
    requires
        start.table.sessions.dom().contains(session),
    ensures
        start.bind_all(session, workspaces).table.sessions.dom().contains(session),
        start.bind_all(session, workspaces).table.mapping == start.table.mapping,
        start.bind_all(session, workspaces).table.sessions[session].session_epoch
            == start.table.sessions[session].session_epoch,
    decreases workspaces.len(),
{
    if workspaces.len() > 0 {
        lemma_bound_stay(start, session, workspaces.drop_last());
    }
}

/// Once the references to a session that is gone are removed, it serves no workspace, and every
/// workspace that another session serves is still served by it.
pub proof fn a_session_that_is_gone_serves_nothing(
    start: Connected,
    session: u64,
    end: Connected,
    workspace_id: Seq<char>,
)
    requires
        references_removed(start, session, end),
    ensures
        ({
            let before = start.table.mapping;
            let after = end.table.mapping;
            &&& before.dom().contains(workspace_id) && before[workspace_id] == session
                ==> !after.dom().contains(workspace_id)
            &&& before.dom().contains(workspace_id) && before[workspace_id] != session
                ==> after.dom().contains(workspace_id) && after[workspace_id]
                == before[workspace_id]
            &&& !before.dom().contains(workspace_id) ==> !after.dom().contains(workspace_id)
        }),
{
    let ids = choose|ids: Seq<Seq<char>>| #[trigger]
        crate::connect::lists_served(start.table, session, ids) && end == start.unbind_all(ids);
    lemma_unbound(start, ids, workspace_id);
    assert(ids.contains(workspace_id) <==> serves(start.table, session, workspace_id));
}

proof fn lemma_unbound(start: Connected, ids: Seq<Seq<char>>, workspace_id: Seq<char>)
    ensures
        ({
            let before = start.table.mapping;
            let after = start.unbind_all(ids).table.mapping;
            &&& ids.contains(workspace_id) ==> !after.dom().contains(workspace_id)
            &&& !ids.contains(workspace_id) ==> (after.dom().contains(workspace_id)
                <==> before.dom().contains(workspace_id)) && (before.dom().contains(workspace_id)
                ==> after[workspace_id] == before[workspace_id])
        }),
    decreases ids.len(),
{
    if ids.len() > 0 {
        let rest = ids.drop_last();
        lemma_unbound(start, rest, workspace_id);
        if ids.contains(workspace_id) && ids.last() != workspace_id {
            let k = choose|k: int| 0 <= k < ids.len() && ids[k] == workspace_id;
            assert(rest[k] == workspace_id);
        }
        if rest.contains(workspace_id) {
            let k = choose|k: int| 0 <= k < rest.len() && rest[k] == workspace_id;
            assert(ids[k] == workspace_id);
        }
        if ids.last() == workspace_id {
            assert(ids[ids.len() - 1] == workspace_id);
        }
    }
}

/// A request that asks for a start is recorded first, with its number, its threads and its kind;
/// any other is written at once, under its number, with its method and parameters, and waited for.
pub proof fn a_request_sets_out_with_its_record_or_its_message(
    session: SessionView,
    gate: GateView,
    sending: Sending,
    after: SendView,
    action: SendAction,
)
    requires
        sets_out(session, gate, sending, after, action),
    ensures
        ({
            let request = sending.request;
            &&& after.gate == gate
            &&& request.start matches Some(start) ==> {
                &&& sending.stage == SendStage::Recording
                &&& after.session == session
                &&& action matches SendAction::Record { event }
                &&& event@ == (EventView::PendingLocalStart {
                    request_id: start.request_id,
                    session_epoch: session.session_epoch,
                    workspace_id: request.workspace_id@,
                    request_thread_id: text_view(start.request_thread_id),
                    expected_thread_id: text_view(start.expected_thread_id),
                    request_kind: start.request_kind@,
                })
            }
            &&& request.start is None ==> {
                &&& sending.stage == SendStage::Writing
                &&& after.session.request_context.dom().contains(request.request_id)
                &&& action matches SendAction::Write { message }
                &&& message@ == JsonView::Object(
                    seq![
                        ("id"@, JsonView::Unsigned(request.request_id)),
                        ("method"@, JsonView::Text(request.method@)),
                        ("params"@, request.params@),
                    ],
                )
            }
        }),
{
}

/// A start that is recorded is written, under its number, with its method and parameters, and
/// waited for from then on; once it is written it no longer counts as under way, and its answer is
/// waited for.
pub proof fn what_is_recorded_is_written_and_then_waited_for(
    before: SendView,
    next: SendStage,
    after: SendView,
    action: SendAction,
)
    ensures
        sends(SendStage::Recording, before, Ok(()), next, after, action) ==> {
            &&& next == SendStage::Writing
            &&& after.gate == before.gate
            &&& after.session.request_context.dom().contains(before.request.request_id)
            &&& after.session.request_context[before.request.request_id].pending_local_start
                == before.request.start
            &&& action matches SendAction::Write { message }
            &&& message@ == JsonView::Object(
                seq![
                    ("id"@, JsonView::Unsigned(before.request.request_id)),
                    ("method"@, JsonView::Text(before.request.method@)),
                    ("params"@, before.request.params@),
                ],
            )
        },
        sends(SendStage::Writing, before, Ok(()), next, after, action) ==> {
            &&& next == SendStage::Waiting
            &&& action == SendAction::Wait
            &&& after.session == before.session
            &&& after.request.admission is None
            &&& counts(before.request.admission) && before.gate.admissions > 0 ==> after.gate == (
            GateView { admissions: (before.gate.admissions - 1) as usize, ..before.gate })
            &&& !counts(before.request.admission) ==> after.gate == before.gate
        },
        sends(SendStage::Waiting, before, Ok(()), next, after, action) ==> {
            &&& next == SendStage::Ended
            &&& action == SendAction::Done
            &&& after == before
        },
{
}

/// A request that cannot be written, or is not answered, is no longer waited for; where it asked
/// for a start the failure is recorded first, with the reason, and then the request fails with it.
/// What cannot be recorded takes the workspace's permit away.
pub proof fn a_failed_request_is_given_up(
    stage: SendStage,
    before: SendView,
    reason: String,
    next: SendStage,
    after: SendView,
    action: SendAction,
)
    requires
        stage == SendStage::Writing || stage == SendStage::Waiting,
        sends(stage, before, Err(reason), next, after, action),
    ensures
        ({
            let request = before.request;
            &&& !after.session.request_context.dom().contains(request.request_id)
            &&& request.start is None ==> next == SendStage::Ended && (
            action matches SendAction::Failed { message } && message@ == reason@)
                && after.request.admission is None
            &&& request.start matches Some(start) ==> {
                &&& next matches SendStage::RecordingFailure { reason: kept }
                &&& kept@ == reason@
                &&& action matches SendAction::RecordFailure { event }
                &&& event@ == (EventView::StartFailed {
                    request_id: start.request_id,
                    session_epoch: before.session.session_epoch,
                    workspace_id: request.workspace_id@,
                    reason: reason@,
                })
                &&& after.gate == before.gate
            }
        }),
{
}

/// Once the failure of a start is recorded, or could not be, the request fails with its reason and
/// no longer counts; where it could not be recorded, that is said too, and the workspace is no
/// longer admitted in the session.
pub proof fn a_recorded_failure_ends_the_request(
    before: SendView,
    reason: String,
    outcome: Result<(), String>,
    next: SendStage,
    after: SendView,
    action: SendAction,
)
    requires
        sends(SendStage::RecordingFailure { reason }, before, outcome, next, after, action),
    ensures
        ({
            let key = (before.session.session_epoch, before.request.workspace_id@);
            &&& next == SendStage::Ended
            &&& after.session == before.session
            &&& after.request.admission is None
            &&& action is Failed
            &&& outcome is Ok ==> (action matches SendAction::Failed { message } && message@
                == reason@) && after.gate.permits == before.gate.permits
            &&& outcome is Err ==> (action matches SendAction::Failed { message } && message@
                == reason@ + "; quota guard could not persist failed local start: "@
                + outcome->Err_0@) && after.gate.permits == before.gate.permits.remove(key)
            &&& counts(before.request.admission) && before.gate.admissions > 0
                ==> after.gate.admissions == before.gate.admissions - 1
        }),
{
}

/// A start that cannot be recorded is not sent: the request fails with the reason, no longer
/// counts, and its workspace is no longer admitted in the session.
pub proof fn a_start_that_cannot_be_recorded_is_not_sent(
    before: SendView,
    error: String,
    next: SendStage,
    after: SendView,
    action: SendAction,
)
    requires
        sends(SendStage::Recording, before, Err(error), next, after, action),
    ensures
        ({
            let key = (before.session.session_epoch, before.request.workspace_id@);
            &&& next == SendStage::Ended
            &&& after.session == before.session
            &&& after.request.admission is None
            &&& after.gate.permits == before.gate.permits.remove(key)
            &&& after.gate.policy == before.gate.policy
            &&& counts(before.request.admission) && before.gate.admissions > 0
                ==> after.gate.admissions == before.gate.admissions - 1
            &&& !counts(before.request.admission) ==> after.gate.admissions
                == before.gate.admissions
            &&& action matches SendAction::Failed { message }
            &&& message@ == "quota guard could not persist pending local start: "@ + error@
        }),
{
}

/// A request that has ended stays as it is, whatever comes.
pub proof fn an_ended_request_stays_ended(
    before: SendView,
    outcome: Result<(), String>,
    next: SendStage,
    after: SendView,
    action: SendAction,
)
    requires
        sends(SendStage::Ended, before, outcome, next, after, action),
    ensures
        next == SendStage::Ended,
        after == before,
        action == SendAction::Done,
{
}

/// A session to share is one that serves some workspace; a new one is started only where none
/// does.
pub proof fn a_session_is_shared_where_there_is_one(table: TableView, step: ConnectStep)
    requires
        shares(table, step),
    ensures
        ({
            let served = exists|id: Seq<char>| #[trigger] table.mapping.dom().contains(id);
            &&& step is ProbeShared <==> served
            &&& step == ConnectStep::Spawn <==> !served
            &&& step matches ConnectStep::ProbeShared { session } ==> exists|id: Seq<char>|
                #[trigger] table.mapping.dom().contains(id) && table.mapping[id] == session
        }),
{
}

/// A session that stops serving workspaces stops serving each of them, in turn: one that was bound
/// is reported as disconnected, it is bound no longer, and its permit is gone.
pub proof fn a_session_stops_serving_each_workspace(
    start: Connected,
    session: u64,
    workspaces: Seq<WorkspacePath>,
    last: WorkspacePath,
)
    requires
        start.table.sessions.dom().contains(session),
    ensures
        ({
            let before = start.revoke_all(session, workspaces);
            let after = start.revoke_all(session, workspaces.push(last));
            let state = before.table.sessions[session];
            let bound = state.bound_workspace_ids.contains(last.0@);
            &&& start.revoke_all(session, Seq::<WorkspacePath>::empty()) == start
            &&& before.table.sessions.dom().contains(session)
            &&& !after.table.sessions[session].bound_workspace_ids.contains(last.0@)
            &&& after.gate.permits == before.gate.permits.remove((state.session_epoch, last.0@))
            &&& after.table.mapping == before.table.mapping
            &&& bound ==> after.events == before.events.push(
                EventView::WorkspaceDisconnected {
                    session_epoch: state.session_epoch,
                    workspace_id: last.0@,
                },
            )
            &&& !bound ==> after.events == before.events
        }),
{
    assert(workspaces.push(last).drop_last() == workspaces);
    lemma_still_known(start, session, workspaces);
    let state = start.revoke_all(session, workspaces).table.sessions[session];
    removing_a_text_keeps_the_others(state.bound_workspace_ids, last.0@, last.0@);
}

proof fn lemma_still_known(start: Connected, session: u64, workspaces: Seq<WorkspacePath>)
    requires
        start.table.sessions.dom().contains(session),
    ensures
        start.revoke_all(session, workspaces).table.sessions.dom().contains(session),
    decreases workspaces.len(),
{
    if workspaces.len() > 0 {
        lemma_still_known(start, session, workspaces.drop_last());
    }
}

} // verus!
