//! Which session serves which workspace, and how one takes the place of another.

use crate::collections::{has_text, lemma_pushed_text, text_views, KeyedList};
use crate::events::{EventView, QuotaGuardEvent};
use crate::gate::{GateView, ProcessGate};
use crate::session::{event_views, SessionState, SessionView};
use crate::text::str_view;
use std::collections::HashMap;
use vstd::prelude::*;
use vstd::string::*;

verus! {

broadcast use vstd::std_specs::hash::group_hash_axioms;

/// The sessions, each under a number of its own, and the workspaces that they serve.
pub struct SessionTable {
    pub mapping: KeyedList<u64>,
    pub sessions: HashMap<u64, SessionState>,
}

/// What a table holds.
#[verifier::ext_equal]
pub struct TableView {
    pub mapping: Map<Seq<char>, u64>,
    pub sessions: Map<u64, SessionView>,
}

/// What the sessions hold.
pub open spec fn session_views(sessions: Map<u64, SessionState>) -> Map<u64, SessionView> {
    sessions.map_values(|session: SessionState| session@)
}

impl View for SessionTable {
    type V = TableView;

    open spec fn view(&self) -> TableView {
        TableView { mapping: self.mapping@, sessions: session_views(self.sessions@) }
    }
}

/// A table, the process gate and what has been reported.
#[verifier::ext_equal]
pub struct Connected {
    pub table: TableView,
    pub gate: GateView,
    pub events: Seq<EventView>,
}

impl Connected {
    /// After the session has stopped serving the workspace.
    pub open spec fn revoke(self, session: u64, workspace_id: Seq<char>) -> Connected {
        if self.table.sessions.dom().contains(session) {
            let state = self.table.sessions[session];
            Connected {
                table: TableView {
                    sessions: self.table.sessions.insert(session, state.revoked(workspace_id)),
                    ..self.table
                },
                gate: GateView {
                    permits: self.gate.permits.remove((state.session_epoch, workspace_id)),
                    ..self.gate
                },
                events: if state.bound_workspace_ids.contains(workspace_id) {
                    self.events.push(
                        EventView::WorkspaceDisconnected {
                            session_epoch: state.session_epoch,
                            workspace_id,
                        },
                    )
                } else {
                    self.events
                },
            }
        } else {
            self
        }
    }

    /// After the session has been bound to the workspace.
    pub open spec fn bind(
        self,
        session: u64,
        workspace_id: Seq<char>,
        path: Option<Seq<char>>,
    ) -> Connected {
        if self.table.sessions.dom().contains(session) {
            let state = self.table.sessions[session];
            let was_bound = state.bound_workspace_ids.contains(workspace_id);
            Connected {
                table: TableView {
                    sessions: self.table.sessions.insert(
                        session,
                        SessionView {
                            bound_workspace_ids: crate::collections::with_text(
                                state.bound_workspace_ids,
                                workspace_id,
                            ),
                            ..state.registered(workspace_id, path)
                        },
                    ),
                    ..self.table
                },
                gate: if was_bound {
                    self.gate
                } else {
                    GateView {
                        permits: self.gate.permits.insert(
                            (state.session_epoch, workspace_id),
                            false,
                        ),
                        ..self.gate
                    }
                },
                events: if was_bound {
                    self.events
                } else {
                    self.events.push(
                        EventView::WorkspaceBound {
                            session_epoch: state.session_epoch,
                            workspace_id,
                            canonical_codex_home: state.canonical_codex_home,
                        },
                    )
                },
            }
        } else {
            self
        }
    }

    /// After the workspace has been given to the session.
    pub open spec fn map(self, workspace_id: Seq<char>, session: u64) -> Connected {
        Connected {
            table: TableView {
                mapping: self.table.mapping.insert(workspace_id, session),
                ..self.table
            },
            ..self
        }
    }

    /// After the workspace has been taken from whatever session serves it.
    pub open spec fn unmap(self, workspace_id: Seq<char>) -> Connected {
        Connected {
            table: TableView { mapping: self.table.mapping.remove(workspace_id), ..self.table },
            ..self
        }
    }

    /// After a session has been made to serve the workspace: another one that did is revoked
    /// first.
    pub open spec fn bind_session(
        self,
        session: u64,
        workspace_id: Seq<char>,
        path: Option<Seq<char>>,
    ) -> Connected {
        let cleared = if self.table.mapping.dom().contains(workspace_id)
            && self.table.mapping[workspace_id] != session {
            self.revoke(self.table.mapping[workspace_id], workspace_id)
        } else {
            self
        };
        cleared.map(workspace_id, session).bind(session, workspace_id, path)
    }

    /// After the workspace has been taken from the session that serves it.
    pub open spec fn unbind(self, workspace_id: Seq<char>) -> Connected {
        if self.table.mapping.dom().contains(workspace_id) {
            self.revoke(self.table.mapping[workspace_id], workspace_id).unmap(workspace_id)
        } else {
            self
        }
    }
}

fn revoke_in(
    table: &mut SessionTable,
    gate: &mut ProcessGate,
    session: u64,
    workspace_id: &str,
    events: &mut Vec<QuotaGuardEvent>,
)
    ensures
        (Connected { table: final(table)@, gate: final(gate)@, events: event_views(final(events)@) })
            == (Connected {
            table: old(table)@,
            gate: old(gate)@,
            events: event_views(old(events)@),
        }).revoke(session, workspace_id@),
{
    let ghost before = table@;
    if let Some(mut state) = table.sessions.remove(&session) {
        let event = state.revoke_workspace(gate, workspace_id);
        let _ = table.sessions.insert(session, state);
        assert(session_views(table.sessions@) =~= before.sessions.insert(session, state@));
        if let Some(e) = event {
            let ghost held = events@;
            events.push(e);
            assert(event_views(events@) =~= event_views(held).push(e@));
        }
    } else {
        assert(session_views(table.sessions@) =~= before.sessions);
    }
}

fn bind_in(
    table: &mut SessionTable,
    gate: &mut ProcessGate,
    session: u64,
    workspace_id: &str,
    path: Option<&str>,
    events: &mut Vec<QuotaGuardEvent>,
)
    ensures
        (Connected { table: final(table)@, gate: final(gate)@, events: event_views(final(events)@) })
            == (Connected {
            table: old(table)@,
            gate: old(gate)@,
            events: event_views(old(events)@),
        }).bind(session, workspace_id@, str_view(path)),
{
    let ghost before = table@;
    if let Some(mut state) = table.sessions.remove(&session) {
        let event = state.bind_workspace(gate, workspace_id, path);
        let _ = table.sessions.insert(session, state);
        assert(session_views(table.sessions@) =~= before.sessions.insert(session, state@));
        if let Some(e) = event {
            let ghost held = events@;
            events.push(e);
            assert(event_views(events@) =~= event_views(held).push(e@));
        }
    } else {
        assert(session_views(table.sessions@) =~= before.sessions);
    }
}

/// Makes the session serve the workspace. Another one that did is revoked first, so that what
/// still holds it is no longer admitted.
pub fn bind_workspace_session(
    table: &mut SessionTable,
    gate: &mut ProcessGate,
    session: u64,
    workspace_id: &str,
    workspace_path: Option<&str>,
) -> (events: Vec<QuotaGuardEvent>)
    ensures
        (Connected { table: final(table)@, gate: final(gate)@, events: event_views(events@) })
            == (Connected {
            table: old(table)@,
            gate: old(gate)@,
            events: seq![],
        }).bind_session(session, workspace_id@, str_view(workspace_path)),
{
    let mut events: Vec<QuotaGuardEvent> = Vec::new();
    assert(event_views(events@) =~= Seq::<EventView>::empty());
    let previous = match table.mapping.get(workspace_id) {
        Some(id) => Some(*id),
        None => None,
    };
    if let Some(id) = previous {
        if id != session {
            revoke_in(table, gate, id, workspace_id, &mut events);
        }
    }
    table.mapping.insert(workspace_id, session);
    bind_in(table, gate, session, workspace_id, workspace_path, &mut events);
    events
}

/// Takes the workspace from the session that serves it, and says which that was.
pub fn revoke_and_unbind_workspace(
    table: &mut SessionTable,
    gate: &mut ProcessGate,
    workspace_id: &str,
) -> (r: (Option<u64>, Vec<QuotaGuardEvent>))
    ensures
        r.0 == if old(table)@.mapping.dom().contains(workspace_id@) {
            Some(old(table)@.mapping[workspace_id@])
        } else {
            None
        },
        (Connected { table: final(table)@, gate: final(gate)@, events: event_views(r.1@) })
            == (Connected {
            table: old(table)@,
            gate: old(gate)@,
            events: seq![],
        }).unbind(workspace_id@),
{
    let mut events: Vec<QuotaGuardEvent> = Vec::new();
    assert(event_views(events@) =~= Seq::<EventView>::empty());
    let found = match table.mapping.get(workspace_id) {
        Some(id) => Some(*id),
        None => None,
    };
    if let Some(id) = found {
        revoke_in(table, gate, id, workspace_id, &mut events);
        table.mapping.remove(workspace_id);
    }
    (found, events)
}

/// A workspace and its path.
pub type WorkspacePath = (String, Option<String>);

/// Whether the session serves the workspace.
pub open spec fn serves(table: TableView, session: u64, workspace_id: Seq<char>) -> bool {
    table.mapping.dom().contains(workspace_id) && table.mapping[workspace_id] == session
}

/// The workspaces that the session serves.
pub open spec fn served_by(table: TableView, session: u64) -> spec_fn(WorkspacePath) -> bool {
    |workspace: WorkspacePath| serves(table, session, workspace.0@)
}

impl Connected {
    /// After the session has stopped serving each of the workspaces.
    pub open spec fn revoke_all(self, session: u64, workspaces: Seq<WorkspacePath>) -> Connected
        decreases workspaces.len(),
    {
        if workspaces.len() == 0 {
            self
        } else {
            self.revoke_all(session, workspaces.drop_last()).revoke(session, workspaces.last().0@)
        }
    }

    /// After each of the workspaces that the old session still serves has been given to the
    /// new one.
    pub open spec fn remap_all(
        self,
        old_session: u64,
        new_session: u64,
        workspaces: Seq<WorkspacePath>,
    ) -> Connected
        decreases workspaces.len(),
    {
        if workspaces.len() == 0 {
            self
        } else {
            let before = self.remap_all(old_session, new_session, workspaces.drop_last());
            if serves(before.table, old_session, workspaces.last().0@) {
                before.map(workspaces.last().0@, new_session)
            } else {
                before
            }
        }
    }

    /// After the session has been bound to each of the workspaces.
    pub open spec fn bind_all(self, session: u64, workspaces: Seq<WorkspacePath>) -> Connected
        decreases workspaces.len(),
    {
        if workspaces.len() == 0 {
            self
        } else {
            self.bind_all(session, workspaces.drop_last()).bind(
                session,
                workspaces.last().0@,
                crate::model::text_view(workspaces.last().1),
            )
        }
    }
}

fn copy_workspace(workspace: &WorkspacePath) -> (r: WorkspacePath)
    ensures
        r == *workspace,
{
    (workspace.0.clone(), crate::model::copy_text(&workspace.1))
}

/// Begins to put another session in the place of `old_session`: of the workspaces, those that
/// it serves are revoked, before any of them is given away. Says which they are.
pub fn begin_swap(
    table: &mut SessionTable,
    gate: &mut ProcessGate,
    old_session: u64,
    workspace_paths: &Vec<WorkspacePath>,
) -> (r: (Vec<WorkspacePath>, Vec<QuotaGuardEvent>))
    ensures
        r.0@ == workspace_paths@.filter(served_by(old(table)@, old_session)),
        (Connected { table: final(table)@, gate: final(gate)@, events: event_views(r.1@) })
            == (Connected {
            table: old(table)@,
            gate: old(gate)@,
            events: seq![],
        }).revoke_all(old_session, r.0@),
{
    let ghost first = table@;
    let ghost keep = served_by(first, old_session);
    let mut replacing: Vec<WorkspacePath> = Vec::new();
    let mut i: usize = 0;
    proof {
        reveal(Seq::filter);
        assert(workspace_paths@.take(0).filter(keep) =~= Seq::<WorkspacePath>::empty());
    }
    while i < workspace_paths.len()
        invariant
            i <= workspace_paths@.len(),
            table@ == first,
            keep == served_by(first, old_session),
            replacing@ == workspace_paths@.take(i as int).filter(keep),
        decreases workspace_paths@.len() - i,
    {
        proof {
            reveal(Seq::filter);
            assert(workspace_paths@.take(i + 1).drop_last() =~= workspace_paths@.take(i as int));
            assert(workspace_paths@.take(i + 1).last() == workspace_paths@[i as int]);
        }
        let served = match table.mapping.get(workspace_paths[i].0.as_str()) {
            Some(id) => *id == old_session,
            None => false,
        };
        if served {
            replacing.push(copy_workspace(&workspace_paths[i]));
        }
        i += 1;
    }
    assert(workspace_paths@.take(workspace_paths@.len() as int) =~= workspace_paths@);
    let mut events: Vec<QuotaGuardEvent> = Vec::new();
    assert(event_views(events@) =~= Seq::<EventView>::empty());
    let ghost start = Connected { table: table@, gate: gate@, events: seq![] };
    let mut k: usize = 0;
    assert(replacing@.take(0) =~= Seq::<WorkspacePath>::empty());
    while k < replacing.len()
        invariant
            k <= replacing@.len(),
            (Connected { table: table@, gate: gate@, events: event_views(events@) })
                == start.revoke_all(old_session, replacing@.take(k as int)),
        decreases replacing@.len() - k,
    {
        proof {
            assert(replacing@.take(k + 1).drop_last() =~= replacing@.take(k as int));
            assert(replacing@.take(k + 1).last() == replacing@[k as int]);
        }
        revoke_in(table, gate, old_session, replacing[k].0.as_str(), &mut events);
        k += 1;
    }
    assert(replacing@.take(replacing@.len() as int) =~= replacing@);
    (replacing, events)
}

/// Ends putting `new_session` in the place of `old_session`, once no request is under way: it
/// gets the workspaces that the old one still serves, and is bound to all of them.
pub fn finish_swap(
    table: &mut SessionTable,
    gate: &mut ProcessGate,
    old_session: u64,
    new_session: u64,
    replacing: &Vec<WorkspacePath>,
) -> (events: Vec<QuotaGuardEvent>)
    ensures
        (Connected { table: final(table)@, gate: final(gate)@, events: event_views(events@) })
            == (Connected {
            table: old(table)@,
            gate: old(gate)@,
            events: seq![],
        }).remap_all(old_session, new_session, replacing@).bind_all(new_session, replacing@),
{
    let mut events: Vec<QuotaGuardEvent> = Vec::new();
    assert(event_views(events@) =~= Seq::<EventView>::empty());
    let ghost start = Connected { table: table@, gate: gate@, events: seq![] };
    let mut i: usize = 0;
    assert(replacing@.take(0) =~= Seq::<WorkspacePath>::empty());
    while i < replacing.len()
        invariant
            i <= replacing@.len(),
            events@.len() == 0,
            (Connected { table: table@, gate: gate@, events: event_views(events@) })
                == start.remap_all(old_session, new_session, replacing@.take(i as int)),
        decreases replacing@.len() - i,
    {
        proof {
            assert(replacing@.take(i + 1).drop_last() =~= replacing@.take(i as int));
            assert(replacing@.take(i + 1).last() == replacing@[i as int]);
        }
        let served = match table.mapping.get(replacing[i].0.as_str()) {
            Some(id) => *id == old_session,
            None => false,
        };
        if served {
            table.mapping.insert(replacing[i].0.as_str(), new_session);
        }
        i += 1;
    }
    assert(replacing@.take(replacing@.len() as int) =~= replacing@);
    let ghost mapped = Connected { table: table@, gate: gate@, events: event_views(events@) };
    let mut k: usize = 0;
    while k < replacing.len()
        invariant
            k <= replacing@.len(),
            (Connected { table: table@, gate: gate@, events: event_views(events@) })
                == mapped.bind_all(new_session, replacing@.take(k as int)),
        decreases replacing@.len() - k,
    {
        proof {
            assert(replacing@.take(k + 1).drop_last() =~= replacing@.take(k as int));
            assert(replacing@.take(k + 1).last() == replacing@[k as int]);
        }
        let path = match &replacing[k].1 {
            Some(text) => Some(text.as_str()),
            None => None,
        };
        bind_in(table, gate, new_session, replacing[k].0.as_str(), path, &mut events);
        k += 1;
    }
    assert(replacing@.take(replacing@.len() as int) =~= replacing@);
    events
}

/// Whether the session serves a workspace.
pub open spec fn serves_any(table: TableView, session: u64) -> bool {
    exists|workspace_id: Seq<char>| #[trigger] serves(table, session, workspace_id)
}

/// A session that serves some workspace, where there is one.
pub fn shared_session(table: &SessionTable) -> (r: Option<u64>)
    ensures
        match r {
            Some(id) => serves_any(table@, id),
            None => table@.mapping.dom() =~= Set::<Seq<char>>::empty(),
        },
{
    if table.mapping.len() == 0 {
        return None;
    }
    let key = table.mapping.key(0);
    match table.mapping.get(key) {
        Some(id) => {
            assert(serves(table@, *id, key@));
            assert(serves_any(table@, *id));
            Some(*id)
        },
        None => None,
    }
}

/// Whether the session serves a workspace.
pub fn is_referenced(table: &SessionTable, session: u64) -> (r: bool)
    ensures
        r == serves_any(table@, session),
{
    let mut i: usize = 0;
    while i < table.mapping.len()
        invariant
            i <= table.mapping.spec_len(),
            forall|k: int| 0 <= k < i ==> !serves(table@, session, #[trigger] table.mapping.key_at(k)),
        decreases table.mapping.spec_len() - i,
    {
        let key = table.mapping.key(i);
        if let Some(id) = table.mapping.get(key) {
            if *id == session {
                assert(serves(table@, session, key@));
                return true;
            }
        }
        assert(!serves(table@, session, key@));
        i += 1;
    }
    proof {
        assert forall|workspace: Seq<char>| !(#[trigger] serves(table@, session, workspace)) by {
            if serves(table@, session, workspace) {
                table.mapping.lemma_keys_have_positions(workspace);
            }
        }
    }
    false
}

/// Takes the workspace from its session. Says which session no longer serves any workspace
/// and is to be ended.
pub fn kill_session_by_id(table: &mut SessionTable, gate: &mut ProcessGate, workspace_id: &str) -> (r: (
    Option<u64>,
    Vec<QuotaGuardEvent>,
))
    ensures
        ({
            let after = (Connected {
                table: old(table)@,
                gate: old(gate)@,
                events: seq![],
            }).unbind(workspace_id@);
            &&& (Connected { table: final(table)@, gate: final(gate)@, events: event_views(r.1@) })
                == after
            &&& match r.0 {
                Some(id) => serves(old(table)@, id, workspace_id@) && !serves_any(after.table, id),
                None => old(table)@.mapping.dom().contains(workspace_id@) ==> serves_any(
                    after.table,
                    old(table)@.mapping[workspace_id@],
                ),
            }
        }),
{
    let (found, events) = revoke_and_unbind_workspace(table, gate, workspace_id);
    match found {
        Some(id) => {
            if is_referenced(table, id) {
                (None, events)
            } else {
                (Some(id), events)
            }
        },
        None => (None, events),
    }
}

/// Whether `ids` are the workspaces that the session serves, each once.
pub open spec fn lists_served(table: TableView, session: u64, ids: Seq<Seq<char>>) -> bool {
    &&& ids.no_duplicates()
    &&& forall|id: Seq<char>| #[trigger] ids.contains(id) <==> serves(table, session, id)
}

impl Connected {
    /// After each of the workspaces has been taken from the session that serves it.
    pub open spec fn unbind_all(self, ids: Seq<Seq<char>>) -> Connected
        decreases ids.len(),
    {
        if ids.len() == 0 {
            self
        } else {
            self.unbind_all(ids.drop_last()).unbind(ids.last())
        }
    }
}

fn served_workspaces(table: &SessionTable, session: u64) -> (ids: Vec<String>)
    ensures
        lists_served(table@, session, text_views(ids@)),
{
    let mut ids: Vec<String> = Vec::new();
    let mut i: usize = 0;
    while i < table.mapping.len()
        invariant
            i <= table.mapping.spec_len(),
            text_views(ids@).no_duplicates(),
            forall|id: Seq<char>| #[trigger]
                text_views(ids@).contains(id) ==> serves(table@, session, id),
            forall|k: int|
                0 <= k < i && serves(table@, session, #[trigger] table.mapping.key_at(k))
                    ==> text_views(ids@).contains(table.mapping.key_at(k)),
        decreases table.mapping.spec_len() - i,
    {
        let key = table.mapping.key(i);
        let ghost before = text_views(ids@);
        let served = match table.mapping.get(key) {
            Some(id) => *id == session,
            None => false,
        };
        if served && !has_text(&ids, key) {
            let copy = key.to_owned();
            proof {
                lemma_pushed_text(ids@, copy);
            }
            ids.push(copy);
            proof {
                let after = before.push(key@);
                assert(text_views(ids@) == after);
                assert forall|id: Seq<char>| #[trigger] after.contains(id) implies serves(
                    table@,
                    session,
                    id,
                ) by {
                    if id != key@ {
                        let k = choose|k: int| 0 <= k < after.len() && after[k] == id;
                        assert(before[k] == id);
                        assert(before.contains(id));
                    }
                }
                assert forall|id: Seq<char>| before.contains(id) implies #[trigger] after.contains(
                    id,
                ) by {
                    let k = choose|k: int| 0 <= k < before.len() && before[k] == id;
                    assert(after[k] == id);
                }
                assert(after[before.len() as int] == key@);
                assert(after.contains(key@));
            }
        }
        i += 1;
    }
    proof {
        assert forall|id: Seq<char>| serves(table@, session, id) implies #[trigger] text_views(
            ids@,
        ).contains(id) by {
            table.mapping.lemma_keys_have_positions(id);
        }
    }
    ids
}

/// Whether the outcome is that every workspace of the session was taken from it.
pub open spec fn references_removed(start: Connected, session: u64, end: Connected) -> bool {
    exists|ids: Seq<Seq<char>>| #[trigger]
        lists_served(start.table, session, ids) && end == start.unbind_all(ids)
}

/// Takes every workspace from the session.
pub fn remove_session_references(table: &mut SessionTable, gate: &mut ProcessGate, session: u64) -> (events:
    Vec<QuotaGuardEvent>)
    ensures
        references_removed(
            Connected { table: old(table)@, gate: old(gate)@, events: seq![] },
            session,
            Connected { table: final(table)@, gate: final(gate)@, events: event_views(events@) },
        ),
{
    let ids = served_workspaces(table, session);
    let ghost all = text_views(ids@);
    let ghost start = Connected { table: table@, gate: gate@, events: seq![] };
    let mut events: Vec<QuotaGuardEvent> = Vec::new();
    assert(event_views(events@) =~= Seq::<EventView>::empty());
    let mut i: usize = 0;
    assert(all.take(0) =~= Seq::<Seq<char>>::empty());
    while i < ids.len()
        invariant
            i <= ids@.len(),
            all == text_views(ids@),
            (Connected { table: table@, gate: gate@, events: event_views(events@) })
                == start.unbind_all(all.take(i as int)),
        decreases ids@.len() - i,
    {
        proof {
            assert(all.take(i + 1).drop_last() =~= all.take(i as int));
            assert(all.take(i + 1).last() == ids@[i as int]@);
        }
        let found = match table.mapping.get(ids[i].as_str()) {
            Some(id) => Some(*id),
            None => None,
        };
        if let Some(id) = found {
            revoke_in(table, gate, id, ids[i].as_str(), &mut events);
            table.mapping.remove(ids[i].as_str());
        }
        i += 1;
    }
    assert(all.take(all.len() as int) =~= all);
    assert(lists_served(start.table, session, all));
    events
}

/// What to do next to connect a workspace.
#[derive(Debug, Clone, Copy, PartialEq, Eq, Structural)]
pub enum ConnectStep {
    /// See whether the session that serves the workspace is alive.
    ProbeOwn { session: u64 },
    /// See whether a session that serves another workspace is alive.
    ProbeShared { session: u64 },
    /// Start a session.
    Spawn,
    /// The workspace is connected.
    Connected,
}

/// Whether the step is one to look for a session to share: one that serves a workspace, or a
/// new one where there is none.
pub open spec fn shares(table: TableView, step: ConnectStep) -> bool {
    match step {
        ConnectStep::ProbeShared { session } => serves_any(table, session),
        ConnectStep::Spawn => table.mapping.dom() =~= Set::<Seq<char>>::empty(),
        _ => false,
    }
}

fn share_step(table: &SessionTable) -> (r: ConnectStep)
    ensures
        shares(table@, r),
{
    match shared_session(table) {
        Some(session) => ConnectStep::ProbeShared { session },
        None => ConnectStep::Spawn,
    }
}

/// The first step to connect a workspace: its own session is looked at first.
pub fn connect_workspace_core(table: &SessionTable, workspace_id: &str) -> (r: ConnectStep)
    ensures
        if table@.mapping.dom().contains(workspace_id@) {
            r == (ConnectStep::ProbeOwn { session: table@.mapping[workspace_id@] })
        } else {
            shares(table@, r)
        },
{
    match table.mapping.get(workspace_id) {
        Some(session) => ConnectStep::ProbeOwn { session: *session },
        None => share_step(table),
    }
}

/// The step after a session was looked at. One that serves the workspace and is alive is
/// enough; another that is alive is bound to it; one that is dead loses all its workspaces.
pub fn after_probe(
    table: &mut SessionTable,
    gate: &mut ProcessGate,
    step: ConnectStep,
    alive: bool,
    workspace_id: &str,
    workspace_path: &str,
) -> (r: (ConnectStep, Vec<QuotaGuardEvent>))
    requires
        step is ProbeOwn || step is ProbeShared,
    ensures
        ({
            let start = Connected { table: old(table)@, gate: old(gate)@, events: seq![] };
            let end = Connected {
                table: final(table)@,
                gate: final(gate)@,
                events: event_views(r.1@),
            };
            match (step, alive) {
                (ConnectStep::ProbeOwn { .. }, true) => end == start && r.0
                    == ConnectStep::Connected,
                (ConnectStep::ProbeShared { session }, true) => end == start.bind_session(
                    session,
                    workspace_id@,
                    Some(workspace_path@),
                ) && r.0 == ConnectStep::Connected,
                (ConnectStep::ProbeOwn { session }, false) => references_removed(
                    start,
                    session,
                    end,
                ) && shares(end.table, r.0),
                (ConnectStep::ProbeShared { session }, false) => references_removed(
                    start,
                    session,
                    end,
                ) && shares(end.table, r.0),
                _ => true,
            }
        }),
{
    let session: u64 = match step {
        ConnectStep::ProbeOwn { session } => session,
        ConnectStep::ProbeShared { session } => session,
        _ => 0,
    };
    if !alive {
        let events = remove_session_references(table, gate, session);
        let next = share_step(table);
        return (next, events);
    }
    match step {
        ConnectStep::ProbeShared { .. } => {
            let events = bind_workspace_session(
                table,
                gate,
                session,
                workspace_id,
                Some(workspace_path),
            );
            (ConnectStep::Connected, events)
        },
        _ => {
            let events: Vec<QuotaGuardEvent> = Vec::new();
            assert(event_views(events@) =~= Seq::<EventView>::empty());
            (ConnectStep::Connected, events)
        },
    }
}

proof fn lemma_revoking_keeps_epochs(start: Connected, session: u64, workspaces: Seq<WorkspacePath>)
    ensures
        start.revoke_all(session, workspaces).table.sessions.dom()
            =~= start.table.sessions.dom(),
        start.table.sessions.dom().contains(session) ==> start.revoke_all(
            session,
            workspaces,
        ).table.sessions[session].session_epoch == start.table.sessions[session].session_epoch,
        start.revoke_all(session, workspaces).table.mapping == start.table.mapping,
    decreases workspaces.len(),
{
    if workspaces.len() > 0 {
        lemma_revoking_keeps_epochs(start, session, workspaces.drop_last());
    }
}

/// Once a swap has begun, the old session has no permit left for any workspace that is to be
/// replaced: what still holds it is not admitted, while no workspace has been given away yet.
pub proof fn swap_retires_the_old_session_first(
    start: Connected,
    session: u64,
    workspaces: Seq<WorkspacePath>,
    i: int,
)
    requires
        start.table.sessions.dom().contains(session),
        0 <= i < workspaces.len(),
    ensures
        ({
            let after = start.revoke_all(session, workspaces);
            &&& !after.gate.permits.dom().contains(
                (start.table.sessions[session].session_epoch, workspaces[i].0@),
            )
            &&& after.table.mapping == start.table.mapping
        }),
    decreases workspaces.len(),
{
    lemma_revoking_keeps_epochs(start, session, workspaces);
    lemma_revoking_keeps_epochs(start, session, workspaces.drop_last());
    if i < workspaces.len() - 1 {
        swap_retires_the_old_session_first(start, session, workspaces.drop_last(), i);
        assert(workspaces.drop_last()[i] == workspaces[i]);
    }
}

/// A session that is newly bound to a workspace is not admitted there until it is verified.
pub proof fn a_new_binding_is_closed(
    start: Connected,
    session: u64,
    workspace_id: Seq<char>,
    path: Option<Seq<char>>,
)
    requires
        start.table.sessions.dom().contains(session),
        !start.table.sessions[session].bound_workspace_ids.contains(workspace_id),
        start.gate.policy == crate::gate::ProcessPolicy::EnabledOpen,
    ensures
        !start.bind(session, workspace_id, path).gate.status(
            Some(start.table.sessions[session].session_epoch),
            workspace_id,
        ).open,
{
}

} // verus!
