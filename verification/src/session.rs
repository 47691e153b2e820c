//! A session with an app server: which workspaces and threads it serves, and what its messages
//! mean.

use crate::collections::{text_views, with_text, without_text, TextMap, TextSet};
use crate::events::{EventView, QuotaGuardEvent};
use crate::gate::{GateView, ProcessGate, ProcessPolicy};
use crate::model::copy_text;
use crate::text::same_text;
use crate::threads::{normalize_root_path, normalized_root, root_views};
use std::collections::HashMap;
use vstd::prelude::*;
use vstd::string::*;

verus! {

broadcast use vstd::std_specs::hash::group_hash_axioms;

/// A request that starts inference, as it was sent.
#[derive(Debug, PartialEq, Eq)]
pub struct PendingLocalStart {
    pub request_id: u64,
    pub request_thread_id: Option<String>,
    pub expected_thread_id: Option<String>,
    pub request_kind: String,
}

impl Clone for PendingLocalStart {
    fn clone(&self) -> (r: PendingLocalStart)
        ensures
            r == *self,
    {
        PendingLocalStart {
            request_id: self.request_id,
            request_thread_id: copy_text(&self.request_thread_id),
            expected_thread_id: copy_text(&self.expected_thread_id),
            request_kind: self.request_kind.clone(),
        }
    }
}

/// What is kept of a request until it is answered.
#[derive(Debug, PartialEq, Eq)]
pub struct RequestContext {
    pub workspace_id: String,
    pub method: String,
    pub pending_local_start: Option<PendingLocalStart>,
}

/// What a session knows.
pub struct SessionState {
    pub session_epoch: String,
    pub canonical_codex_home: String,
    pub owner_workspace_id: String,
    pub request_context: HashMap<u64, RequestContext>,
    pub thread_workspace: TextMap,
    pub hidden_thread_ids: TextSet,
    pub workspace_ids: TextSet,
    pub workspace_roots: Vec<(String, String)>,
    pub bound_workspace_ids: TextSet,
    pub background_threads: TextSet,
}

/// What a session's state holds.
#[verifier::ext_equal]
pub struct SessionView {
    pub session_epoch: Seq<char>,
    pub canonical_codex_home: Seq<char>,
    pub owner_workspace_id: Seq<char>,
    pub request_context: Map<u64, RequestContext>,
    pub thread_workspace: Map<Seq<char>, Seq<char>>,
    pub hidden_thread_ids: Seq<Seq<char>>,
    pub workspace_ids: Seq<Seq<char>>,
    pub workspace_roots: Seq<(Seq<char>, Seq<char>)>,
    pub bound_workspace_ids: Seq<Seq<char>>,
    pub background_threads: Seq<Seq<char>>,
}

impl View for SessionState {
    type V = SessionView;

    open spec fn view(&self) -> SessionView {
        SessionView {
            session_epoch: self.session_epoch@,
            canonical_codex_home: self.canonical_codex_home@,
            owner_workspace_id: self.owner_workspace_id@,
            request_context: self.request_context@,
            thread_workspace: self.thread_workspace@,
            hidden_thread_ids: self.hidden_thread_ids@,
            workspace_ids: self.workspace_ids@,
            workspace_roots: root_views(self.workspace_roots@),
            bound_workspace_ids: self.bound_workspace_ids@,
            background_threads: self.background_threads@,
        }
    }
}

/// The roots with the workspace's root set.
pub open spec fn with_root(
    roots: Seq<(Seq<char>, Seq<char>)>,
    workspace_id: Seq<char>,
    root: Seq<char>,
) -> Seq<(Seq<char>, Seq<char>)> {
    without_root(roots, workspace_id).push((workspace_id, root))
}

/// The roots without the workspace's.
pub open spec fn without_root(
    roots: Seq<(Seq<char>, Seq<char>)>,
    workspace_id: Seq<char>,
) -> Seq<(Seq<char>, Seq<char>)> {
    roots.filter(|root: (Seq<char>, Seq<char>)| root.0 != workspace_id)
}

impl SessionView {
    /// The session that also serves the workspace.
    pub open spec fn registered(self, workspace_id: Seq<char>, path: Option<Seq<char>>) -> SessionView {
        SessionView {
            workspace_ids: with_text(self.workspace_ids, workspace_id),
            workspace_roots: if path is Some && normalized_root(path->0).len() > 0 {
                with_root(self.workspace_roots, workspace_id, normalized_root(path->0))
            } else {
                self.workspace_roots
            },
            ..self
        }
    }

    /// The session that no longer serves the workspace.
    pub open spec fn revoked(self, workspace_id: Seq<char>) -> SessionView {
        SessionView {
            workspace_ids: without_text(self.workspace_ids, workspace_id),
            workspace_roots: without_root(self.workspace_roots, workspace_id),
            bound_workspace_ids: without_text(self.bound_workspace_ids, workspace_id),
            ..self
        }
    }
}

spec fn other_root(workspace_id: Seq<char>) -> spec_fn((String, String)) -> bool {
    |root: (String, String)| root.0@ != workspace_id
}

proof fn lemma_roots_filter(roots: Seq<(String, String)>, workspace_id: Seq<char>)
    ensures
        root_views(roots.filter(other_root(workspace_id))) == without_root(
            root_views(roots),
            workspace_id,
        ),
    decreases roots.len(),
{
    reveal(Seq::filter);
    if roots.len() > 0 {
        lemma_roots_filter(roots.drop_last(), workspace_id);
        assert(root_views(roots).drop_last() =~= root_views(roots.drop_last()));
        assert(root_views(roots).last() == (roots.last().0@, roots.last().1@));
        let rest = roots.drop_last().filter(other_root(workspace_id));
        assert(root_views(rest.push(roots.last())) =~= root_views(rest).push(
            (roots.last().0@, roots.last().1@),
        ));
    } else {
        assert(root_views(roots) =~= Seq::<(Seq<char>, Seq<char>)>::empty());
    }
}

fn drop_root(roots: &mut Vec<(String, String)>, workspace_id: &str)
    ensures
        root_views(final(roots)@) == without_root(root_views(old(roots)@), workspace_id@),
{
    let ghost before = roots@;
    let keep = |root: &(String, String)| -> (b: bool)
        ensures
            b == (root.0@ != workspace_id@),
    { !same_text(root.0.as_str(), workspace_id) };
    crate::search::retain_where(roots, keep, Ghost(other_root(workspace_id@)));
    proof {
        lemma_roots_filter(before, workspace_id@);
    }
}

impl SessionState {
    /// A session that serves its owner and has sent nothing.
    pub fn new(
        session_epoch: String,
        canonical_codex_home: String,
        owner_workspace_id: String,
        owner_path: &str,
    ) -> (r: SessionState)
        ensures
            r@ == (SessionView {
                session_epoch: session_epoch@,
                canonical_codex_home: canonical_codex_home@,
                owner_workspace_id: owner_workspace_id@,
                request_context: Map::empty(),
                thread_workspace: Map::empty(),
                hidden_thread_ids: Seq::empty(),
                workspace_ids: seq![owner_workspace_id@],
                workspace_roots: seq![(owner_workspace_id@, normalized_root(owner_path@))],
                bound_workspace_ids: Seq::empty(),
                background_threads: Seq::empty(),
            }),
    {
        let mut workspace_ids = TextSet::new();
        let _ = workspace_ids.insert(owner_workspace_id.as_str());
        assert(workspace_ids@ =~= seq![owner_workspace_id@]);
        let mut workspace_roots: Vec<(String, String)> = Vec::new();
        workspace_roots.push((owner_workspace_id.clone(), normalize_root_path(owner_path)));
        assert(root_views(workspace_roots@) =~= seq![
            (owner_workspace_id@, normalized_root(owner_path@)),
        ]);
        SessionState {
            session_epoch,
            canonical_codex_home,
            owner_workspace_id,
            request_context: HashMap::new(),
            thread_workspace: TextMap::new(),
            hidden_thread_ids: TextSet::new(),
            workspace_ids,
            workspace_roots,
            bound_workspace_ids: TextSet::new(),
            background_threads: TextSet::new(),
        }
    }

    /// Serves the workspace, from its path where that is given.
    pub fn register_workspace_with_path(&mut self, workspace_id: &str, workspace_path: Option<&str>)
        ensures
            final(self)@ == old(self)@.registered(
                workspace_id@,
                match workspace_path {
                    Some(path) => Some(path@),
                    None => None,
                },
            ),
    {
        let _ = self.workspace_ids.insert(workspace_id);
        if let Some(path) = workspace_path {
            let normalized = normalize_root_path(path);
            if normalized.as_str().unicode_len() > 0 {
                drop_root(&mut self.workspace_roots, workspace_id);
                let ghost held = self.workspace_roots@;
                let root = (workspace_id.to_owned(), normalized);
                self.workspace_roots.push(root);
                assert(root_views(self.workspace_roots@) =~= root_views(held).push(
                    (root.0@, root.1@),
                ));
            }
        }
    }

    /// Binds the workspace: serves it, and, the first time, makes it known to the process gate as
    /// not yet verified and reports it.
    pub fn bind_workspace(
        &mut self,
        gate: &mut ProcessGate,
        workspace_id: &str,
        workspace_path: Option<&str>,
    ) -> (event: Option<QuotaGuardEvent>)
        ensures
            ({
                let path = match workspace_path {
                    Some(path) => Some(path@),
                    None => None,
                };
                let was_bound = old(self)@.bound_workspace_ids.contains(workspace_id@);
                &&& final(self)@ == (SessionView {
                    bound_workspace_ids: with_text(old(self)@.bound_workspace_ids, workspace_id@),
                    ..old(self)@.registered(workspace_id@, path)
                })
                &&& final(gate)@ == if was_bound {
                    old(gate)@
                } else {
                    GateView {
                        permits: old(gate)@.permits.insert(
                            (old(self)@.session_epoch, workspace_id@),
                            false,
                        ),
                        ..old(gate)@
                    }
                }
                &&& match event {
                    Some(bound) => !was_bound && bound@ == (EventView::WorkspaceBound {
                        session_epoch: old(self)@.session_epoch,
                        workspace_id: workspace_id@,
                        canonical_codex_home: old(self)@.canonical_codex_home,
                    }),
                    None => was_bound,
                }
            }),
    {
        self.register_workspace_with_path(workspace_id, workspace_path);
        let newly_bound = self.bound_workspace_ids.insert(workspace_id);
        if newly_bound {
            gate.register_closed_epoch(self.session_epoch.clone(), workspace_id.to_owned());
            Some(
                QuotaGuardEvent::WorkspaceBound {
                    session_epoch: self.session_epoch.clone(),
                    workspace_id: workspace_id.to_owned(),
                    canonical_codex_home: self.canonical_codex_home.clone(),
                },
            )
        } else {
            None
        }
    }

    /// Stops serving the workspace: the process gate forgets it, and, where it was bound, that is
    /// reported.
    pub fn revoke_workspace(&mut self, gate: &mut ProcessGate, workspace_id: &str) -> (event: Option<
        QuotaGuardEvent,
    >)
        ensures
            ({
                let was_bound = old(self)@.bound_workspace_ids.contains(workspace_id@);
                &&& final(self)@ == old(self)@.revoked(workspace_id@)
                &&& final(gate)@ == (GateView {
                    permits: old(gate)@.permits.remove((old(self)@.session_epoch, workspace_id@)),
                    ..old(gate)@
                })
                &&& match event {
                    Some(gone) => was_bound && gone@ == (EventView::WorkspaceDisconnected {
                        session_epoch: old(self)@.session_epoch,
                        workspace_id: workspace_id@,
                    }),
                    None => !was_bound,
                }
            }),
    {
        gate.revoke_epoch(self.session_epoch.as_str(), workspace_id);
        let was_bound = self.bound_workspace_ids.remove(workspace_id);
        let _ = self.workspace_ids.remove(workspace_id);
        drop_root(&mut self.workspace_roots, workspace_id);
        if was_bound {
            Some(
                QuotaGuardEvent::WorkspaceDisconnected {
                    session_epoch: self.session_epoch.clone(),
                    workspace_id: workspace_id.to_owned(),
                },
            )
        } else {
            None
        }
    }

    /// The workspaces that the session serves.
    pub fn workspace_ids_snapshot(&self) -> (r: Vec<String>)
        ensures
            text_views(r@) == self@.workspace_ids,
    {
        self.workspace_ids.to_vec()
    }

    /// Whether the workspace is bound.
    pub fn is_workspace_bound(&self, workspace_id: &str) -> (r: bool)
        ensures
            r == self@.bound_workspace_ids.contains(workspace_id@),
    {
        self.bound_workspace_ids.contains(workspace_id)
    }

    /// Stops admitting the workspace in this session.
    pub fn close_workspace_admission(&self, gate: &mut ProcessGate, workspace_id: &str)
        ensures
            final(gate)@ == (GateView {
                permits: old(gate)@.permits.remove((self@.session_epoch, workspace_id@)),
                ..old(gate)@
            }),
    {
        gate.revoke_epoch(self.session_epoch.as_str(), workspace_id);
    }
}

/// The session and the permits once every one of `ids` is revoked, and what is reported.
pub open spec fn all_revoked(
    session: SessionView,
    permits: Map<(Seq<char>, Seq<char>), bool>,
    ids: Seq<Seq<char>>,
) -> (SessionView, Map<(Seq<char>, Seq<char>), bool>, Seq<EventView>)
    decreases ids.len(),
{
    if ids.len() == 0 {
        (session, permits, seq![])
    } else {
        let (before, held, events) = all_revoked(session, permits, ids.drop_last());
        let id = ids.last();
        (
            before.revoked(id),
            held.remove((session.session_epoch, id)),
            if before.bound_workspace_ids.contains(id) {
                events.push(
                    EventView::WorkspaceDisconnected {
                        session_epoch: session.session_epoch,
                        workspace_id: id,
                    },
                )
            } else {
                events
            },
        )
    }
}

/// What the events hold.
pub open spec fn event_views(events: Seq<QuotaGuardEvent>) -> Seq<EventView> {
    events.map_values(|event: QuotaGuardEvent| event@)
}

proof fn lemma_revoking_keeps_epoch(
    session: SessionView,
    permits: Map<(Seq<char>, Seq<char>), bool>,
    ids: Seq<Seq<char>>,
)
    ensures
        all_revoked(session, permits, ids).0.session_epoch == session.session_epoch,
    decreases ids.len(),
{
    if ids.len() > 0 {
        lemma_revoking_keeps_epoch(session, permits, ids.drop_last());
    }
}

/// After a session has ended, none of its workspaces has a permit left in it.
pub proof fn an_ended_session_admits_nothing(
    session: SessionView,
    permits: Map<(Seq<char>, Seq<char>), bool>,
    ids: Seq<Seq<char>>,
    id: Seq<char>,
)
    requires
        ids.contains(id),
    ensures
        !all_revoked(session, permits, ids).1.dom().contains((session.session_epoch, id)),
    decreases ids.len(),
{
    if ids.len() > 0 && ids.last() != id {
        let k = choose|k: int| 0 <= k < ids.len() && ids[k] == id;
        assert(ids.drop_last()[k] == id);
        an_ended_session_admits_nothing(session, permits, ids.drop_last(), id);
    }
}

impl SessionState {
    /// Ends the session: every workspace that it serves is revoked, and no request is waited
    /// for.
    pub fn disconnect(&mut self, gate: &mut ProcessGate) -> (events: Vec<QuotaGuardEvent>)
        ensures
            ({
                let (left, permits, reported) = all_revoked(
                    old(self)@,
                    old(gate)@.permits,
                    old(self)@.workspace_ids,
                );
                &&& final(self)@ == (SessionView { request_context: Map::empty(), ..left })
                &&& final(gate)@ == (GateView { permits, ..old(gate)@ })
                &&& event_views(events@) == reported
            }),
    {
        let ids = self.workspace_ids.to_vec();
        let ghost all = text_views(ids@);
        let ghost before = self@;
        let ghost permits = gate@.permits;
        let mut events: Vec<QuotaGuardEvent> = Vec::new();
        let mut i: usize = 0;
        assert(all.take(0) =~= Seq::<Seq<char>>::empty());
        assert(event_views(events@) =~= Seq::<EventView>::empty());
        while i < ids.len()
            invariant
                i <= ids@.len(),
                all == text_views(ids@),
                self@ == all_revoked(before, permits, all.take(i as int)).0,
                gate@ == (GateView {
                    permits: all_revoked(before, permits, all.take(i as int)).1,
                    ..old(gate)@
                }),
                event_views(events@) == all_revoked(before, permits, all.take(i as int)).2,
            decreases ids@.len() - i,
        {
            proof {
                assert(all.take(i + 1).drop_last() =~= all.take(i as int));
                assert(all.take(i + 1).last() == ids@[i as int]@);
                lemma_revoking_keeps_epoch(before, permits, all.take(i as int));
            }
            if let Some(event) = self.revoke_workspace(gate, ids[i].as_str()) {
                let ghost held = events@;
                events.push(event);
                assert(event_views(events@) =~= event_views(held).push(event@));
            }
            i += 1;
        }
        assert(all.take(all.len() as int) =~= all);
        self.request_context.clear();
        events
    }
}

/// Admits nothing until the account is verified again, unless the limiter is off.
pub fn close_for_identity_change(gate: &mut ProcessGate)
    ensures
        final(gate)@ == if old(gate)@.policy == ProcessPolicy::DisabledOpen {
            old(gate)@
        } else {
            GateView { policy: ProcessPolicy::EnabledClosed, ..old(gate)@ }
        },
{
    if gate.policy() != ProcessPolicy::DisabledOpen {
        gate.set_policy(ProcessPolicy::EnabledClosed);
    }
}

} // verus!
