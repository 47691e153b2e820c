//! What is to be done with each line that an app server writes.

use crate::collections::{text_views, with_text, without_text, TextMap};
use crate::events::{EventView, QuotaGuardEvent};
use crate::json::{json_view, parse_json, Json, JsonView};
use crate::json_order::document_in;
use crate::model::{document_view, text_view};
use crate::protocol::{parse_error_message, parse_error_notice};
use crate::session::{PendingLocalStart, RequestContext, SessionState, SessionView};
use crate::text::{lowercase, same_text, to_lowercase, trim_text, trimmed};
use crate::threads::{
    concerns_every_workspace, consolidates_memory, extract_related_thread_ids,
    extract_review_thread_id, extract_thread_entries_from_thread_list_result, extract_thread_id,
    extract_turn_id, listed_threads, member_in, member_of, related_threads,
    resolve_workspace_for_cwd, review_thread_of, should_broadcast_global_workspace_notification,
    should_suppress_hidden_thread_event, started_source, suppressed_when_hidden, text_in, text_of,
    thread_list_views, thread_of, thread_started_is_memory_consolidation, turn_of, workspace_of,
    ThreadListView,
};
use vstd::prelude::*;
use vstd::string::*;

verus! {

broadcast use vstd::std_specs::hash::group_hash_axioms;

/// Something to do on account of a message.
#[derive(Debug, PartialEq)]
pub enum SessionAction {
    /// Show the message itself to the workspace.
    Forward { workspace_id: String },
    /// Show another message to the workspace.
    Emit { workspace_id: String, message: Json },
    /// Report to the limiter.
    Observe { event: QuotaGuardEvent },
    /// Admit nothing until the account is verified again.
    CloseForIdentityChange,
    /// Hand the message to whoever waits for this request.
    Deliver { request_id: u64 },
    /// Report that a start failed, stop admitting the workspace where that cannot be recorded,
    /// and then hand the message to whoever waits for the request.
    RecordFailureAndDeliver {
        request_id: u64,
        start: PendingLocalStart,
        workspace_id: String,
        reason: String,
    },
    /// Hand the message to whoever watches this background thread.
    Callback { thread_id: String },
}

/// What an action holds.
pub enum ActionView {
    Forward { workspace_id: Seq<char> },
    Emit { workspace_id: Seq<char>, message: JsonView },
    Observe { event: EventView },
    CloseForIdentityChange,
    Deliver { request_id: u64 },
    RecordFailureAndDeliver {
        request_id: u64,
        start: PendingLocalStart,
        workspace_id: Seq<char>,
        reason: Seq<char>,
    },
    Callback { thread_id: Seq<char> },
}

impl View for SessionAction {
    type V = ActionView;

    open spec fn view(&self) -> ActionView {
        match *self {
            SessionAction::Forward { workspace_id } => ActionView::Forward {
                workspace_id: workspace_id@,
            },
            SessionAction::Emit { workspace_id, message } => ActionView::Emit {
                workspace_id: workspace_id@,
                message: message@,
            },
            SessionAction::Observe { event } => ActionView::Observe { event: event@ },
            SessionAction::CloseForIdentityChange => ActionView::CloseForIdentityChange,
            SessionAction::Deliver { request_id } => ActionView::Deliver { request_id },
            SessionAction::RecordFailureAndDeliver { request_id, start, workspace_id, reason } => {
                ActionView::RecordFailureAndDeliver {
                    request_id,
                    start,
                    workspace_id: workspace_id@,
                    reason: reason@,
                }
            },
            SessionAction::Callback { thread_id } => ActionView::Callback {
                thread_id: thread_id@,
            },
        }
    }
}

/// What the actions hold.
pub open spec fn action_views(actions: Seq<SessionAction>) -> Seq<ActionView> {
    actions.map_values(|action: SessionAction| action@)
}

/// The request that a message belongs to.
pub open spec fn request_of(message: JsonView) -> Option<u64> {
    match message.get("id"@) {
        Some(id) => id.unsigned(),
        None => None,
    }
}

/// Whether the message answers a request.
pub open spec fn answers(message: JsonView) -> bool {
    message.get("result"@) is Some || message.get("error"@) is Some
}

/// The message's method.
pub open spec fn method_of(message: JsonView) -> Option<Seq<char>> {
    text_of(message.get("method"@))
}

/// The request that a message answers, as far as it is known.
pub open spec fn answered_request(session: SessionView, message: JsonView) -> Option<RequestContext> {
    match request_of(message) {
        Some(id) => if answers(message) && session.request_context.dom().contains(id) {
            Some(session.request_context[id])
        } else {
            None
        },
        None => None,
    }
}

/// The workspace that a known request was sent for.
pub open spec fn request_workspace(context: Option<RequestContext>) -> Option<Seq<char>> {
    match context {
        Some(known) => Some(known.workspace_id@),
        None => None,
    }
}

/// The start that a known request asked for.
pub open spec fn requested_start(context: Option<RequestContext>) -> Option<PendingLocalStart> {
    match context {
        Some(known) => known.pending_local_start,
        None => None,
    }
}

/// The session without the request that a message answers.
pub open spec fn without_answered(session: SessionView, message: JsonView) -> SessionView {
    match request_of(message) {
        Some(id) => if answers(message) {
            SessionView { request_context: session.request_context.remove(id), ..session }
        } else {
            session
        },
        None => session,
    }
}

/// The map with every thread given to the workspace.
pub open spec fn all_given(
    threads: Map<Seq<char>, Seq<char>>,
    ids: Seq<Seq<char>>,
    workspace_id: Seq<char>,
) -> Map<Seq<char>, Seq<char>>
    decreases ids.len(),
{
    if ids.len() == 0 {
        threads
    } else {
        all_given(threads, ids.drop_last(), workspace_id).insert(ids.last(), workspace_id)
    }
}

/// The map with every thread that has no workspace given to this one.
pub open spec fn all_defaulted(
    threads: Map<Seq<char>, Seq<char>>,
    ids: Seq<Seq<char>>,
    workspace_id: Seq<char>,
) -> Map<Seq<char>, Seq<char>>
    decreases ids.len(),
{
    if ids.len() == 0 {
        threads
    } else {
        let before = all_defaulted(threads, ids.drop_last(), workspace_id);
        if before.dom().contains(ids.last()) {
            before
        } else {
            before.insert(ids.last(), workspace_id)
        }
    }
}

/// The session that gives the threads of an answer to the workspace that asked.
pub open spec fn with_answer_threads(
    session: SessionView,
    message: JsonView,
    workspace_id: Option<Seq<char>>,
) -> SessionView {
    match workspace_id {
        Some(id) => SessionView {
            thread_workspace: if related_threads(message).len() > 0 {
                all_given(session.thread_workspace, related_threads(message), id)
            } else {
                match thread_of(message) {
                    Some(thread) => session.thread_workspace.insert(thread, id),
                    None => session.thread_workspace,
                }
            },
            ..session
        },
        None => session,
    }
}

/// The session that has taken note of listed threads: those that only consolidate memories
/// belong to no workspace and are hidden, the others belong to the workspace that their
/// directory is in.
pub open spec fn with_listed(session: SessionView, listed: Seq<ThreadListView>) -> SessionView
    decreases listed.len(),
{
    if listed.len() == 0 {
        session
    } else {
        let before = with_listed(session, listed.drop_last());
        let thread = listed.last();
        let workspace = match thread.cwd {
            Some(cwd) => workspace_of(session.workspace_roots, cwd),
            None => None,
        };
        if thread.is_memory_consolidation {
            SessionView {
                thread_workspace: before.thread_workspace.remove(thread.thread_id),
                hidden_thread_ids: with_text(before.hidden_thread_ids, thread.thread_id),
                ..before
            }
        } else if workspace is Some {
            SessionView {
                thread_workspace: before.thread_workspace.insert(thread.thread_id, workspace->0),
                ..before
            }
        } else {
            before
        }
    }
}

/// The threads that an answer to a thread list holds.
pub open spec fn threads_listed(message: JsonView) -> Seq<ThreadListView> {
    match message.get("result"@) {
        Some(result) => listed_threads(result),
        None => seq![],
    }
}

/// The session that has taken note of an answer to a thread list.
pub open spec fn with_thread_list(
    session: SessionView,
    message: JsonView,
    context: Option<RequestContext>,
) -> SessionView {
    if context matches Some(known) && known.method@ == "thread/list"@ {
        with_listed(session, threads_listed(message))
    } else {
        session
    }
}

/// The workspace that a message goes to: that of its thread, or else the one that asked, or
/// else the session's owner.
pub open spec fn route_of(
    session: SessionView,
    message: JsonView,
    workspace_id: Option<Seq<char>>,
) -> Seq<char> {
    let by_thread = match thread_of(message) {
        Some(thread) => if session.thread_workspace.dom().contains(thread) {
            Some(session.thread_workspace[thread])
        } else {
            None
        },
        None => None,
    };
    match by_thread {
        Some(id) => id,
        None => match workspace_id {
            Some(id) => id,
            None => session.owner_workspace_id,
        },
    }
}

/// The thread that an answered start runs in.
pub open spec fn started_thread(start: PendingLocalStart, message: JsonView) -> Option<Seq<char>> {
    if start.request_kind@ == "review/start"@ {
        review_thread_of(message)
    } else {
        match thread_of(message) {
            Some(thread) => Some(thread),
            None => text_view(start.expected_thread_id),
        }
    }
}

/// The session that gives the thread of an answered start to the workspace that the answer
/// goes to.
pub open spec fn with_started_thread(
    session: SessionView,
    message: JsonView,
    start: Option<PendingLocalStart>,
    route: Seq<char>,
) -> SessionView {
    if start is Some && message.get("error"@) is None && started_thread(start->0, message) is Some {
        SessionView {
            thread_workspace: session.thread_workspace.insert(
                started_thread(start->0, message)->0,
                route,
            ),
            ..session
        }
    } else {
        session
    }
}

/// Why a start failed.
pub open spec fn failure_reason(message: JsonView) -> Seq<char> {
    match text_of(member_of(message.get("error"@), "message"@)) {
        Some(text) => text,
        None => "app-server request failed"@,
    }
}

/// The report that a start was answered.
pub open spec fn start_answered(
    session: SessionView,
    message: JsonView,
    context: Option<RequestContext>,
) -> Seq<ActionView> {
    if requested_start(context) is Some && message.get("error"@) is None {
        seq![
            ActionView::Observe {
                event: EventView::StartResponse {
                    request_id: requested_start(context)->0.request_id,
                    session_epoch: session.session_epoch,
                    workspace_id: request_workspace(context)->0,
                    method: requested_start(context)->0.request_kind@,
                    value: message,
                },
            },
        ]
    } else {
        seq![]
    }
}

/// The status of the turn that a notification has ended.
pub open spec fn ended_status(message: JsonView) -> Seq<char> {
    let params = message.get("params"@);
    let status = match member_of(params, "status"@) {
        Some(status) => Some(status),
        None => member_of(member_of(params, "turn"@), "status"@),
    };
    match text_of(status) {
        Some(text) => text,
        None => seq![],
    }
}

/// The error of the turn that a notification has ended.
pub open spec fn ended_error(message: JsonView) -> Option<JsonView> {
    let params = message.get("params"@);
    match member_of(params, "error"@) {
        Some(error) => Some(error),
        None => member_of(member_of(params, "turn"@), "error"@),
    }
}

/// What is reported of a message, whether it is shown or not.
pub open spec fn observed(session: SessionView, message: JsonView, route: Seq<char>) -> Seq<
    ActionView,
> {
    let method = method_of(message);
    let thread = thread_of(message);
    let turn = turn_of(message);
    if method == Some("account/rateLimits/updated"@) {
        seq![
            ActionView::Observe {
                event: EventView::RateLimits {
                    session_epoch: session.session_epoch,
                    workspace_id: route,
                    value: message,
                },
            },
        ]
    } else if method == Some("turn/started"@) && thread is Some && turn is Some {
        seq![
            ActionView::Observe {
                event: EventView::TurnStarted {
                    session_epoch: session.session_epoch,
                    workspace_id: route,
                    thread_id: thread->0,
                    turn_id: turn->0,
                },
            },
        ]
    } else if method == Some("turn/completed"@) && thread is Some && turn is Some {
        seq![
            ActionView::Observe {
                event: EventView::TurnCompleted {
                    session_epoch: session.session_epoch,
                    workspace_id: route,
                    thread_id: thread->0,
                    turn_id: turn->0,
                    status: ended_status(message),
                    error: ended_error(message),
                },
            },
        ]
    } else if method == Some("account/updated"@) || method == Some("account/login/completed"@) {
        seq![
            ActionView::CloseForIdentityChange,
            ActionView::Observe {
                event: EventView::AccountIdentityChanged {
                    session_epoch: session.session_epoch,
                    workspace_id: route,
                    reason: method->0,
                },
            },
        ]
    } else {
        seq![]
    }
}

/// Whether the message asks that its thread be hidden.
pub open spec fn asks_to_hide(message: JsonView) -> bool {
    let action = match text_of(member_of(message.get("params"@), "action"@)) {
        Some(text) => text,
        None => "hide"@,
    };
    method_of(message) == Some("codex/backgroundThread"@) && lowercase(action) == "hide"@
}

/// Whether the message says that a thread has started that only consolidates memories.
pub open spec fn starts_memory_thread(message: JsonView) -> bool {
    method_of(message) == Some("thread/started"@) && consolidates_memory(started_source(message))
}

/// The session in which the message's thread is hidden where the message says so.
pub open spec fn with_hidden(session: SessionView, message: JsonView) -> SessionView {
    if thread_of(message) is Some && (asks_to_hide(message) || starts_memory_thread(message)) {
        SessionView {
            hidden_thread_ids: with_text(session.hidden_thread_ids, thread_of(message)->0),
            ..session
        }
    } else {
        session
    }
}

/// The message that says that a thread is hidden.
pub open spec fn hide_message(thread_id: Seq<char>) -> JsonView {
    JsonView::Object(
        seq![
            ("method"@, JsonView::Text("codex/backgroundThread"@)),
            (
                "params"@,
                JsonView::Object(
                    seq![
                        ("action"@, JsonView::Text("hide"@)),
                        ("threadId"@, JsonView::Text(thread_id)),
                    ],
                ),
            ),
        ],
    )
}

/// Whether the message is kept back because its thread is hidden.
pub open spec fn kept_back(session: SessionView, message: JsonView) -> bool {
    thread_of(message) is Some && session.hidden_thread_ids.contains(thread_of(message)->0)
        && suppressed_when_hidden(method_of(message), answers(message))
}

/// The session that has taken note of the threads of an item and of an archived thread.
pub open spec fn with_shown(session: SessionView, message: JsonView, route: Seq<char>) -> SessionView {
    let method = method_of(message);
    if method == Some("item/started"@) || method == Some("item/completed"@) {
        SessionView {
            thread_workspace: all_defaulted(
                session.thread_workspace,
                related_threads(message),
                route,
            ),
            ..session
        }
    } else if method == Some("thread/archived"@) && thread_of(message) is Some {
        SessionView {
            thread_workspace: session.thread_workspace.remove(thread_of(message)->0),
            hidden_thread_ids: without_text(session.hidden_thread_ids, thread_of(message)->0),
            ..session
        }
    } else {
        session
    }
}

/// One forwarding for each workspace.
pub open spec fn forwards(workspace_ids: Seq<Seq<char>>) -> Seq<ActionView> {
    workspace_ids.map_values(|id: Seq<char>| ActionView::Forward { workspace_id: id })
}

/// Who gets a notification: whoever watches its background thread, or else every workspace
/// where it concerns them all, or else the workspace that it goes to.
pub open spec fn notified(
    session: SessionView,
    message: JsonView,
    workspace_id: Option<Seq<char>>,
    route: Seq<char>,
) -> Seq<ActionView> {
    let thread = thread_of(message);
    if thread is Some && session.background_threads.contains(thread->0) {
        seq![ActionView::Callback { thread_id: thread->0 }]
    } else if (method_of(message) matches Some(name) && concerns_every_workspace(name)) && thread
        is None && workspace_id is None && session.workspace_ids.len() > 0 {
        forwards(session.workspace_ids)
    } else {
        seq![ActionView::Forward { workspace_id: route }]
    }
}

/// Who gets a message that is not kept back.
pub open spec fn delivered(
    session: SessionView,
    message: JsonView,
    context: Option<RequestContext>,
    route: Seq<char>,
) -> Seq<ActionView> {
    match request_of(message) {
        Some(id) => if answers(message) {
            if requested_start(context) is Some && message.get("error"@) is Some {
                seq![
                    ActionView::RecordFailureAndDeliver {
                        request_id: id,
                        start: requested_start(context)->0,
                        workspace_id: request_workspace(context)->0,
                        reason: failure_reason(message),
                    },
                ]
            } else {
                seq![ActionView::Deliver { request_id: id }]
            }
        } else if message.get("method"@) is Some {
            notified(session, message, request_workspace(context), route)
        } else {
            seq![ActionView::Deliver { request_id: id }]
        },
        None => if message.get("method"@) is Some {
            notified(session, message, request_workspace(context), route)
        } else {
            seq![]
        },
    }
}

/// The session once it knows which workspaces a message's threads belong to.
pub open spec fn noted(session: SessionView, message: JsonView) -> SessionView {
    let context = answered_request(session, message);
    let asked = request_workspace(context);
    let listed = with_thread_list(
        with_answer_threads(without_answered(session, message), message, asked),
        message,
        context,
    );
    with_started_thread(
        listed,
        message,
        requested_start(context),
        route_of(listed, message, asked),
    )
}

/// The workspace that a message goes to.
pub open spec fn message_route(session: SessionView, message: JsonView) -> Seq<char> {
    let context = answered_request(session, message);
    let asked = request_workspace(context);
    let listed = with_thread_list(
        with_answer_threads(without_answered(session, message), message, asked),
        message,
        context,
    );
    route_of(listed, message, asked)
}

/// The session after a message, and what is to be done on account of it.
pub open spec fn handled(session: SessionView, message: JsonView) -> (SessionView, Seq<ActionView>) {
    let context = answered_request(session, message);
    let route = message_route(session, message);
    let hidden = with_hidden(noted(session, message), message);
    let reported = start_answered(session, message, context) + observed(session, message, route);
    if thread_of(message) is Some && starts_memory_thread(message) {
        (
            hidden,
            reported + seq![
                ActionView::Emit {
                    workspace_id: route,
                    message: hide_message(thread_of(message)->0),
                },
            ],
        )
    } else if kept_back(hidden, message) {
        (hidden, reported)
    } else {
        let shown = with_shown(hidden, message, route);
        (shown, reported + delivered(shown, message, context, route))
    }
}

proof fn lemma_pushed_action(actions: Seq<SessionAction>, action: SessionAction)
    ensures
        action_views(actions.push(action)) == action_views(actions).push(action@),
{
    assert(action_views(actions.push(action)) =~= action_views(actions).push(action@));
}

fn push_action(actions: &mut Vec<SessionAction>, action: SessionAction)
    ensures
        action_views(final(actions)@) == action_views(old(actions)@).push(action@),
{
    proof {
        lemma_pushed_action(actions@, action);
    }
    actions.push(action);
}

fn request_id_of(message: &Json) -> (r: Option<u64>)
    ensures
        r == request_of(message@),
{
    match message.get("id") {
        Some(id) => id.as_u64(),
        None => None,
    }
}

fn is_answer(message: &Json) -> (r: bool)
    ensures
        r == answers(message@),
{
    message.get("result").is_some() || message.get("error").is_some()
}

fn method_name_of(message: &Json) -> (r: Option<&str>)
    ensures
        match r {
            Some(name) => method_of(message@) == Some(name@),
            None => method_of(message@) is None,
        },
{
    text_in(message.get("method"))
}

fn is_method(method: Option<&str>, name: &str) -> (r: bool)
    ensures
        r == (method matches Some(m) && m@ == name@),
{
    match method {
        Some(m) => same_text(m, name),
        None => false,
    }
}

fn take_request(session: &mut SessionState, message: &Json) -> (r: Option<RequestContext>)
    ensures
        r == answered_request(old(session)@, message@),
        final(session)@ == without_answered(old(session)@, message@),
{
    match request_id_of(message) {
        Some(id) => if is_answer(message) {
            session.request_context.remove(&id)
        } else {
            None
        },
        None => None,
    }
}

fn give_all(threads: &mut TextMap, ids: &Vec<String>, workspace_id: &str)
    ensures
        final(threads)@ == all_given(old(threads)@, text_views(ids@), workspace_id@),
{
    let ghost all = text_views(ids@);
    let ghost before = threads@;
    let mut i: usize = 0;
    assert(all.take(0) =~= Seq::<Seq<char>>::empty());
    while i < ids.len()
        invariant
            i <= ids@.len(),
            all == text_views(ids@),
            threads@ == all_given(before, all.take(i as int), workspace_id@),
        decreases ids@.len() - i,
    {
        proof {
            assert(all.take(i + 1).drop_last() =~= all.take(i as int));
            assert(all.take(i + 1).last() == ids@[i as int]@);
        }
        threads.insert(ids[i].as_str(), workspace_id);
        i += 1;
    }
    assert(all.take(all.len() as int) =~= all);
}

fn default_all(threads: &mut TextMap, ids: &Vec<String>, workspace_id: &str)
    ensures
        final(threads)@ == all_defaulted(old(threads)@, text_views(ids@), workspace_id@),
{
    let ghost all = text_views(ids@);
    let ghost before = threads@;
    let mut i: usize = 0;
    assert(all.take(0) =~= Seq::<Seq<char>>::empty());
    while i < ids.len()
        invariant
            i <= ids@.len(),
            all == text_views(ids@),
            threads@ == all_defaulted(before, all.take(i as int), workspace_id@),
        decreases ids@.len() - i,
    {
        proof {
            assert(all.take(i + 1).drop_last() =~= all.take(i as int));
            assert(all.take(i + 1).last() == ids@[i as int]@);
        }
        if threads.get(ids[i].as_str()).is_none() {
            threads.insert(ids[i].as_str(), workspace_id);
        }
        i += 1;
    }
    assert(all.take(all.len() as int) =~= all);
}

fn note_answer_threads(
    session: &mut SessionState,
    message: &Json,
    workspace_id: &str,
    thread: &Option<String>,
)
    requires
        text_view(*thread) == thread_of(message@),
    ensures
        final(session)@ == with_answer_threads(old(session)@, message@, Some(workspace_id@)),
{
    let related = extract_related_thread_ids(message);
    assert(text_views(related@).len() == related@.len());
    if related.len() > 0 {
        give_all(&mut session.thread_workspace, &related, workspace_id);
    } else if let Some(id) = thread {
        session.thread_workspace.insert(id.as_str(), workspace_id);
    }
}

fn note_thread_list(session: &mut SessionState, message: &Json)
    ensures
        final(session)@ == with_listed(old(session)@, threads_listed(message@)),
{
    let entries = extract_thread_entries_from_thread_list_result(message);
    let ghost all = thread_list_views(entries@);
    let ghost before = session@;
    let mut i: usize = 0;
    assert(all.take(0) =~= Seq::<ThreadListView>::empty());
    while i < entries.len()
        invariant
            i <= entries@.len(),
            all == thread_list_views(entries@),
            session@ == with_listed(before, all.take(i as int)),
            session@.workspace_roots == before.workspace_roots,
        decreases entries@.len() - i,
    {
        let entry = &entries[i];
        proof {
            assert(all.take(i + 1).drop_last() =~= all.take(i as int));
            assert(all.take(i + 1).last() == entries@[i as int]@);
        }
        if entry.is_memory_consolidation {
            session.thread_workspace.remove(entry.thread_id.as_str());
            let _ = session.hidden_thread_ids.insert(entry.thread_id.as_str());
        } else {
            let workspace = match &entry.cwd {
                Some(cwd) => resolve_workspace_for_cwd(cwd.as_str(), &session.workspace_roots),
                None => None,
            };
            if let Some(workspace_id) = workspace {
                session.thread_workspace.insert(entry.thread_id.as_str(), workspace_id.as_str());
            }
        }
        i += 1;
    }
    assert(all.take(all.len() as int) =~= all);
}

fn find_route(
    session: &SessionState,
    message: &Json,
    thread: &Option<String>,
    workspace_id: Option<&str>,
) -> (r: String)
    requires
        text_view(*thread) == thread_of(message@),
    ensures
        r@ == route_of(
            session@,
            message@,
            match workspace_id {
                Some(id) => Some(id@),
                None => None,
            },
        ),
{
    if let Some(id) = thread {
        if let Some(mapped) = session.thread_workspace.get(id.as_str()) {
            return mapped.to_owned();
        }
    }
    match workspace_id {
        Some(id) => id.to_owned(),
        None => session.owner_workspace_id.clone(),
    }
}

fn note_started_thread(
    session: &mut SessionState,
    message: &Json,
    start: &PendingLocalStart,
    route: &str,
)
    ensures
        final(session)@ == with_started_thread(old(session)@, message@, Some(*start), route@),
{
    if message.get("error").is_some() {
        return ;
    }
    let thread = if same_text(start.request_kind.as_str(), "review/start") {
        extract_review_thread_id(message)
    } else {
        match extract_thread_id(message) {
            Some(thread) => Some(thread),
            None => match &start.expected_thread_id {
                Some(thread) => Some(thread.clone()),
                None => None,
            },
        }
    };
    if let Some(id) = thread {
        session.thread_workspace.insert(id.as_str(), route);
    }
}

fn report_answer(
    session: &SessionState,
    message: &Json,
    context: &Option<RequestContext>,
    actions: &mut Vec<SessionAction>,
)
    ensures
        action_views(final(actions)@) == action_views(old(actions)@) + start_answered(
            session@,
            message@,
            *context,
        ),
{
    let ghost before = action_views(actions@);
    if let Some(known) = context {
        if let Some(start) = &known.pending_local_start {
            if message.get("error").is_none() {
                push_action(
                    actions,
                    SessionAction::Observe {
                        event: QuotaGuardEvent::StartResponse {
                            request_id: start.request_id,
                            session_epoch: session.session_epoch.clone(),
                            workspace_id: known.workspace_id.clone(),
                            method: start.request_kind.clone(),
                            value: message.clone(),
                        },
                    },
                );
            }
        }
    }
    assert(action_views(actions@) =~= before + start_answered(session@, message@, *context));
}

fn ended_turn_status(message: &Json) -> (r: String)
    ensures
        r@ == ended_status(message@),
{
    let params = message.get("params");
    let status = match member_in(params, "status") {
        Some(status) => Some(status),
        None => member_in(member_in(params, "turn"), "status"),
    };
    match text_in(status) {
        Some(text) => text.to_owned(),
        None => String::new(),
    }
}

fn ended_turn_error(message: &Json) -> (r: Option<Json>)
    ensures
        document_view(r) == ended_error(message@),
{
    let params = message.get("params");
    let error = match member_in(params, "error") {
        Some(error) => Some(error),
        None => member_in(member_in(params, "turn"), "error"),
    };
    match error {
        Some(json) => Some(json.clone()),
        None => None,
    }
}

fn report_message(
    session: &SessionState,
    message: &Json,
    method: Option<&str>,
    thread: &Option<String>,
    route: &str,
    actions: &mut Vec<SessionAction>,
)
    requires
        method_of(message@) == (match method {
            Some(name) => Some(name@),
            None => None,
        }),
        text_view(*thread) == thread_of(message@),
    ensures
        action_views(final(actions)@) == action_views(old(actions)@) + observed(
            session@,
            message@,
            route@,
        ),
{
    let ghost before = action_views(actions@);
    let ghost expected = observed(session@, message@, route@);
    proof {
        reveal_strlit("account/rateLimits/updated");
        reveal_strlit("turn/started");
        reveal_strlit("turn/completed");
        reveal_strlit("account/updated");
        reveal_strlit("account/login/completed");
        assert("account/rateLimits/updated"@.len() == 26);
        assert("turn/started"@.len() == 12);
        assert("turn/completed"@.len() == 14);
        assert("account/updated"@.len() == 15);
        assert("account/login/completed"@.len() == 23);
    }
    if is_method(method, "account/rateLimits/updated") {
        push_action(
            actions,
            SessionAction::Observe {
                event: QuotaGuardEvent::RateLimits {
                    session_epoch: session.session_epoch.clone(),
                    workspace_id: route.to_owned(),
                    value: message.clone(),
                },
            },
        );
        assert(action_views(actions@) =~= before + expected);
        return ;
    }
    if is_method(method, "turn/started") {
        if let (Some(thread_id), Some(turn_id)) = (thread, extract_turn_id(message)) {
            push_action(
                actions,
                SessionAction::Observe {
                    event: QuotaGuardEvent::TurnStarted {
                        session_epoch: session.session_epoch.clone(),
                        workspace_id: route.to_owned(),
                        thread_id: thread_id.clone(),
                        turn_id,
                    },
                },
            );
        }
        assert(action_views(actions@) =~= before + expected);
        return ;
    }
    if is_method(method, "turn/completed") {
        if let (Some(thread_id), Some(turn_id)) = (thread, extract_turn_id(message)) {
            push_action(
                actions,
                SessionAction::Observe {
                    event: QuotaGuardEvent::TurnCompleted {
                        session_epoch: session.session_epoch.clone(),
                        workspace_id: route.to_owned(),
                        thread_id: thread_id.clone(),
                        turn_id,
                        status: ended_turn_status(message),
                        error: ended_turn_error(message),
                    },
                },
            );
        }
        assert(action_views(actions@) =~= before + expected);
        return ;
    }
    if let Some(name) = method {
        if same_text(name, "account/updated") || same_text(name, "account/login/completed") {
            push_action(actions, SessionAction::CloseForIdentityChange);
            push_action(
                actions,
                SessionAction::Observe {
                    event: QuotaGuardEvent::AccountIdentityChanged {
                        session_epoch: session.session_epoch.clone(),
                        workspace_id: route.to_owned(),
                        reason: name.to_owned(),
                    },
                },
            );
        }
    }
    assert(action_views(actions@) =~= before + expected);
}

fn is_hide_request(message: &Json, method: Option<&str>) -> (r: bool)
    requires
        method_of(message@) == (match method {
            Some(name) => Some(name@),
            None => None,
        }),
    ensures
        r == asks_to_hide(message@),
{
    if !is_method(method, "codex/backgroundThread") {
        return false;
    }
    let action = match text_in(member_in(message.get("params"), "action")) {
        Some(text) => text,
        None => "hide",
    };
    let low = to_lowercase(action);
    same_text(low.as_str(), "hide")
}

/// A document that holds a text.
pub fn text_document(text: &str) -> (r: Json)
    ensures
        r@ == JsonView::Text(text@),
{
    Json::Text(text.to_owned())
}

/// A document that holds two members.
pub fn pair_document(first: &str, left: Json, second: &str, right: Json) -> (r: Json)
    ensures
        r@ == JsonView::Object(seq![(first@, left@), (second@, right@)]),
{
    let mut entries: Vec<(String, Json)> = Vec::new();
    entries.push((first.to_owned(), left));
    entries.push((second.to_owned(), right));
    assert(json_view(Json::Object(entries))->Object_0 =~= seq![
        (first@, left@),
        (second@, right@),
    ]);
    Json::Object(entries)
}

fn build_hide_message(thread_id: &str) -> (r: Json)
    ensures
        r@ == hide_message(thread_id@),
{
    pair_document(
        "method",
        text_document("codex/backgroundThread"),
        "params",
        pair_document(
            "action",
            text_document("hide"),
            "threadId",
            text_document(thread_id),
        ),
    )
}

fn forward_all(workspace_ids: Vec<String>, actions: &mut Vec<SessionAction>)
    ensures
        action_views(final(actions)@) == action_views(old(actions)@) + forwards(
            text_views(workspace_ids@),
        ),
{
    let ghost all = text_views(workspace_ids@);
    let ghost before = action_views(actions@);
    let mut i: usize = 0;
    assert(action_views(actions@) =~= before + forwards(all.take(0)));
    while i < workspace_ids.len()
        invariant
            i <= workspace_ids@.len(),
            all == text_views(workspace_ids@),
            action_views(actions@) == before + forwards(all.take(i as int)),
        decreases workspace_ids@.len() - i,
    {
        push_action(actions, SessionAction::Forward { workspace_id: workspace_ids[i].clone() });
        assert(forwards(all.take(i + 1)) =~= forwards(all.take(i as int)).push(
            ActionView::Forward { workspace_id: all[i as int] },
        ));
        assert(action_views(actions@) =~= before + forwards(all.take(i + 1)));
        i += 1;
    }
    assert(all.take(all.len() as int) =~= all);
}

fn notify(
    session: &SessionState,
    message: &Json,
    method: Option<&str>,
    thread: &Option<String>,
    workspace_id: Option<&str>,
    route: &str,
    actions: &mut Vec<SessionAction>,
)
    requires
        method_of(message@) == (match method {
            Some(name) => Some(name@),
            None => None,
        }),
        text_view(*thread) == thread_of(message@),
    ensures
        action_views(final(actions)@) == action_views(old(actions)@) + notified(
            session@,
            message@,
            match workspace_id {
                Some(id) => Some(id@),
                None => None,
            },
            route@,
        ),
{
    let ghost before = action_views(actions@);
    let ghost expected = notified(
        session@,
        message@,
        match workspace_id {
            Some(id) => Some(id@),
            None => None,
        },
        route@,
    );
    if let Some(thread_id) = thread {
        if session.background_threads.contains(thread_id.as_str()) {
            push_action(actions, SessionAction::Callback { thread_id: thread_id.clone() });
            assert(action_views(actions@) =~= before + expected);
            return ;
        }
    }
    if should_broadcast_global_workspace_notification(method, thread.as_ref(), workspace_id)
        && !session.workspace_ids.is_empty() {
        forward_all(session.workspace_ids.to_vec(), actions);
        return ;
    }
    push_action(actions, SessionAction::Forward { workspace_id: route.to_owned() });
    assert(action_views(actions@) =~= before + expected);
}

fn reason_of_failure(message: &Json) -> (r: String)
    ensures
        r@ == failure_reason(message@),
{
    match text_in(member_in(message.get("error"), "message")) {
        Some(text) => text.to_owned(),
        None => "app-server request failed".to_owned(),
    }
}

fn deliver(
    session: &SessionState,
    message: &Json,
    method: Option<&str>,
    thread: &Option<String>,
    context: &Option<RequestContext>,
    route: &str,
    actions: &mut Vec<SessionAction>,
)
    requires
        method_of(message@) == (match method {
            Some(name) => Some(name@),
            None => None,
        }),
        text_view(*thread) == thread_of(message@),
    ensures
        action_views(final(actions)@) == action_views(old(actions)@) + delivered(
            session@,
            message@,
            *context,
            route@,
        ),
{
    let ghost before = action_views(actions@);
    let ghost expected = delivered(session@, message@, *context, route@);
    let asked = match context {
        Some(known) => Some(known.workspace_id.as_str()),
        None => None,
    };
    let has_method = message.get("method").is_some();
    match request_id_of(message) {
        Some(request_id) => {
            if is_answer(message) {
                if let Some(known) = context {
                    if let Some(start) = &known.pending_local_start {
                        if message.get("error").is_some() {
                            push_action(
                                actions,
                                SessionAction::RecordFailureAndDeliver {
                                    request_id,
                                    start: start.clone(),
                                    workspace_id: known.workspace_id.clone(),
                                    reason: reason_of_failure(message),
                                },
                            );
                            assert(action_views(actions@) =~= before + expected);
                            return ;
                        }
                    }
                }
                push_action(actions, SessionAction::Deliver { request_id });
                assert(action_views(actions@) =~= before + expected);
            } else if has_method {
                notify(session, message, method, thread, asked, route, actions);
            } else {
                push_action(actions, SessionAction::Deliver { request_id });
                assert(action_views(actions@) =~= before + expected);
            }
        },
        None => {
            if has_method {
                notify(session, message, method, thread, asked, route, actions);
            } else {
                assert(action_views(actions@) =~= before + expected);
            }
        },
    }
}

fn note_shown(
    session: &mut SessionState,
    message: &Json,
    method: Option<&str>,
    thread: &Option<String>,
    route: &str,
)
    requires
        method_of(message@) == (match method {
            Some(name) => Some(name@),
            None => None,
        }),
        text_view(*thread) == thread_of(message@),
    ensures
        final(session)@ == with_shown(old(session)@, message@, route@),
{
    if is_method(method, "item/started") || is_method(method, "item/completed") {
        let related = extract_related_thread_ids(message);
        default_all(&mut session.thread_workspace, &related, route);
        return ;
    }
    if is_method(method, "thread/archived") {
        if let Some(id) = thread {
            session.thread_workspace.remove(id.as_str());
            let _ = session.hidden_thread_ids.remove(id.as_str());
        }
    }
}

impl SessionState {
    /// Takes note of a message, and says what is to be done on account of it.
    pub fn handle_message(&mut self, message: &Json) -> (actions: Vec<SessionAction>)
        ensures
            final(self)@ == handled(old(self)@, message@).0,
            action_views(actions@) == handled(old(self)@, message@).1,
    {
        let ghost before = self@;
        let method = method_name_of(message);
        let thread = extract_thread_id(message);
        let context = take_request(self, message);
        let mut actions: Vec<SessionAction> = Vec::new();
        assert(action_views(actions@) =~= Seq::<ActionView>::empty());
        report_answer(self, message, &context, &mut actions);
        if let Some(known) = &context {
            note_answer_threads(self, message, known.workspace_id.as_str(), &thread);
            if same_text(known.method.as_str(), "thread/list") {
                note_thread_list(self, message);
            }
        }
        let asked = match &context {
            Some(known) => Some(known.workspace_id.as_str()),
            None => None,
        };
        let route = find_route(self, message, &thread, asked);
        proof {
            lemma_listing_keeps(
                with_answer_threads(
                    without_answered(before, message@),
                    message@,
                    request_workspace(context),
                ),
                threads_listed(message@),
            );
        }
        assert(route@ == message_route(before, message@));
        if let Some(known) = &context {
            if let Some(start) = &known.pending_local_start {
                note_started_thread(self, message, start, route.as_str());
            }
        }
        assert(self@ == noted(before, message@));
        report_message(self, message, method, &thread, route.as_str(), &mut actions);
        let ghost reported = start_answered(before, message@, context) + observed(
            before,
            message@,
            route@,
        );
        assert(action_views(actions@) =~= reported);
        if let Some(id) = &thread {
            if is_hide_request(message, method) {
                let _ = self.hidden_thread_ids.insert(id.as_str());
            } else if is_method(method, "thread/started")
                && thread_started_is_memory_consolidation(message) {
                let _ = self.hidden_thread_ids.insert(id.as_str());
                push_action(
                    &mut actions,
                    SessionAction::Emit {
                        workspace_id: route,
                        message: build_hide_message(id.as_str()),
                    },
                );
                assert(action_views(actions@) =~= handled(before, message@).1);
                return actions;
            }
            assert(self@ == with_hidden(noted(before, message@), message@));
            assert(!starts_memory_thread(message@)) by {
                reveal_strlit("thread/started");
                reveal_strlit("codex/backgroundThread");
                assert("thread/started"@.len() == 14);
                assert("codex/backgroundThread"@.len() == 22);
            }
            if self.hidden_thread_ids.contains(id.as_str())
                && should_suppress_hidden_thread_event(method, is_answer(message)) {
                return actions;
            }
        }
        note_shown(self, message, method, &thread, route.as_str());
        deliver(self, message, method, &thread, &context, route.as_str(), &mut actions);
        actions
    }
}

/// The session after a line, and what is to be done on account of it. A blank line says
/// nothing, and one that holds no document is shown to the session's owner.
pub open spec fn line_handled(session: SessionView, line: Seq<char>) -> (
    SessionView,
    Seq<ActionView>,
) {
    if trimmed(line).len() == 0 {
        (session, seq![])
    } else {
        match document_in(line) {
            Ok(message) => handled(session, message),
            Err(error) => (
                session,
                seq![
                    ActionView::Emit {
                        workspace_id: session.owner_workspace_id,
                        message: parse_error_notice(error, line),
                    },
                ],
            ),
        }
    }
}

impl SessionState {
    /// Takes note of a line, and says what is to be done on account of it.
    pub fn handle_line(&mut self, line: &str) -> (actions: Vec<SessionAction>)
        ensures
            final(self)@ == line_handled(old(self)@, line@).0,
            action_views(actions@) == line_handled(old(self)@, line@).1,
    {
        let mut actions: Vec<SessionAction> = Vec::new();
        assert(action_views(actions@) =~= Seq::<ActionView>::empty());
        if trim_text(line).as_str().unicode_len() == 0 {
            return actions;
        }
        match parse_json(line) {
            Ok(message) => self.handle_message(&message),
            Err(error) => {
                push_action(
                    &mut actions,
                    SessionAction::Emit {
                        workspace_id: self.owner_workspace_id.clone(),
                        message: parse_error_message(error.as_str(), line),
                    },
                );
                assert(action_views(actions@) =~= line_handled(old(self)@, line@).1);
                actions
            },
        }
    }
}

/// Taking note of listed threads leaves everything but the threads as it is.
pub proof fn lemma_listing_keeps(session: SessionView, listed: Seq<ThreadListView>)
    ensures
        ({
            let after = with_listed(session, listed);
            after == (SessionView {
                thread_workspace: after.thread_workspace,
                hidden_thread_ids: after.hidden_thread_ids,
                ..session
            })
        }),
    decreases listed.len(),
{
    if listed.len() > 0 {
        lemma_listing_keeps(session, listed.drop_last());
    }
}

/// Whatever a message is, the limiter learns of it before it is kept back: what is reported
/// does not depend on which threads are hidden.
pub proof fn reports_do_not_depend_on_hiding(
    session: SessionView,
    hidden_thread_ids: Seq<Seq<char>>,
    message: JsonView,
    i: int,
)
    requires
        ({
            let context = answered_request(session, message);
            0 <= i < (start_answered(session, message, context) + observed(
                session,
                message,
                message_route(session, message),
            )).len()
        }),
    ensures
        ({
            let other = SessionView { hidden_thread_ids, ..session };
            &&& handled(session, message).1[i] == handled(other, message).1[i]
        }),
{
    let other = SessionView { hidden_thread_ids, ..session };
    let context = answered_request(session, message);
    assert(answered_request(other, message) == context);
    let asked = request_workspace(context);
    let a = with_answer_threads(without_answered(session, message), message, asked);
    let b = with_answer_threads(without_answered(other, message), message, asked);
    assert(b == (SessionView { hidden_thread_ids, ..a }));
    lemma_listing_ignores_hidden(a, hidden_thread_ids, threads_listed(message));
    assert(message_route(session, message) == message_route(other, message));
}

proof fn lemma_listing_ignores_hidden(
    session: SessionView,
    hidden_thread_ids: Seq<Seq<char>>,
    listed: Seq<ThreadListView>,
)
    ensures
        with_listed(SessionView { hidden_thread_ids, ..session }, listed).thread_workspace
            == with_listed(session, listed).thread_workspace,
    decreases listed.len(),
{
    if listed.len() > 0 {
        lemma_listing_ignores_hidden(session, hidden_thread_ids, listed.drop_last());
    }
}

/// The answer to a request reaches whoever waits for it, unless it also says that a thread has
/// started that only consolidates memories.
pub proof fn answers_are_delivered(session: SessionView, message: JsonView, id: u64)
    requires
        request_of(message) == Some(id),
        answers(message),
        !starts_memory_thread(message),
    ensures
        ({
            let last = handled(session, message).1.last();
            ||| last == (ActionView::Deliver { request_id: id })
            ||| last matches ActionView::RecordFailureAndDeliver { request_id, .. } && request_id
                == id
        }),
{
}

/// A message about a hidden thread is shown to no workspace, unless it is an answer or says
/// what became of the thread.
pub proof fn hidden_threads_are_not_shown(session: SessionView, message: JsonView, i: int)
    requires
        kept_back(with_hidden(noted(session, message), message), message),
        !starts_memory_thread(message),
        0 <= i < handled(session, message).1.len(),
    ensures
        !(handled(session, message).1[i] is Forward),
        !(handled(session, message).1[i] is Callback),
{
}

/// Admission closes before the change of an account is reported.
pub proof fn identity_change_closes_first(session: SessionView, message: JsonView, route: Seq<char>)
    requires
        method_of(message) == Some("account/updated"@) || method_of(message) == Some(
            "account/login/completed"@,
        ),
    ensures
        observed(session, message, route).len() == 2,
        observed(session, message, route)[0] == ActionView::CloseForIdentityChange,
        observed(session, message, route)[1] matches ActionView::Observe { event }
            && event is AccountIdentityChanged,
{
    reveal_strlit("account/rateLimits/updated");
    reveal_strlit("turn/started");
    reveal_strlit("turn/completed");
    reveal_strlit("account/updated");
    reveal_strlit("account/login/completed");
    assert("account/rateLimits/updated"@.len() == 26);
    assert("turn/started"@.len() == 12);
    assert("turn/completed"@.len() == 14);
    assert("account/updated"@.len() == 15);
    assert("account/login/completed"@.len() == 23);
}

} // verus!
