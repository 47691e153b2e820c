//! What becomes of each message of an app server, stated on what the message says.

use crate::events::EventView;
use crate::json::JsonView;
use crate::json_order::document_in;
use crate::model::text_view;
use crate::routing::{
    all_defaulted, all_given, answered_request, handled, line_handled, message_route, observed,
    start_answered, with_listed, ActionView,
};
use crate::session::SessionView;
use crate::text::trimmed;
use crate::threads::{
    consolidates_memory, listed_threads, related_threads, review_thread_of, started_source,
    thread_of, turn_of, workspace_of, ThreadListView,
};
use vstd::prelude::*;

verus! {

/// The names of the methods that are told apart are different.
proof fn lemma_method_names_differ()
    ensures
        "account/rateLimits/updated"@ != "turn/started"@,
        "account/rateLimits/updated"@ != "turn/completed"@,
        "account/rateLimits/updated"@ != "account/updated"@,
        "account/rateLimits/updated"@ != "account/login/completed"@,
        "account/rateLimits/updated"@ != "thread/started"@,
        "account/rateLimits/updated"@ != "thread/archived"@,
        "account/rateLimits/updated"@ != "codex/backgroundThread"@,
        "turn/started"@ != "turn/completed"@,
        "turn/started"@ != "account/updated"@,
        "turn/started"@ != "account/login/completed"@,
        "turn/started"@ != "thread/started"@,
        "turn/completed"@ != "account/updated"@,
        "turn/completed"@ != "account/login/completed"@,
        "turn/completed"@ != "thread/started"@,
        "account/updated"@ != "account/login/completed"@,
        "account/updated"@ != "thread/started"@,
        "account/updated"@ != "thread/archived"@,
        "account/updated"@ != "codex/backgroundThread"@,
        "account/login/completed"@ != "thread/started"@,
        "account/login/completed"@ != "thread/archived"@,
        "account/login/completed"@ != "codex/backgroundThread"@,
        "thread/started"@ != "thread/archived"@,
        "thread/started"@ != "codex/backgroundThread"@,
        "thread/archived"@ != "codex/backgroundThread"@,
        "thread/archived"@ != "item/started"@,
        "thread/archived"@ != "item/completed"@,
        "item/started"@ != "item/completed"@,
        "item/started"@ != "thread/started"@,
        "item/completed"@ != "thread/started"@,
        "item/started"@ != "codex/backgroundThread"@,
        "item/completed"@ != "codex/backgroundThread"@,
{
    reveal_strlit("account/rateLimits/updated");
    reveal_strlit("turn/started");
    reveal_strlit("turn/completed");
    reveal_strlit("account/updated");
    reveal_strlit("account/login/completed");
    reveal_strlit("thread/started");
    reveal_strlit("thread/archived");
    reveal_strlit("codex/backgroundThread");
    reveal_strlit("item/started");
    reveal_strlit("item/completed");
    assert("account/rateLimits/updated"@.len() == 26);
    assert("turn/started"@.len() == 12);
    assert("turn/completed"@.len() == 14);
    assert("account/updated"@.len() == 15);
    assert("account/login/completed"@.len() == 23);
    assert("thread/started"@.len() == 14);
    assert("thread/archived"@.len() == 15);
    assert("codex/backgroundThread"@.len() == 22);
    assert("item/started"@.len() == 12);
    assert("item/completed"@.len() == 14);
    assert("turn/completed"@[1] != "thread/started"@[1]);
    assert("thread/archived"@[0] != "account/updated"@[0]);
    assert("item/started"@[0] != "turn/started"@[0]);
    assert("item/completed"@[0] != "thread/started"@[0]);
}

/// What is done on account of a message begins with what is reported of it, and reports nothing
/// afterwards.
proof fn lemma_reports_come_first(session: SessionView, message: JsonView)
    ensures
        ({
            let actions = handled(session, message).1;
            let reported = start_answered(session, message, answered_request(session, message))
                + observed(session, message, message_route(session, message));
            &&& reported.len() <= actions.len()
            &&& forall|i: int| 0 <= i < reported.len() ==> #[trigger] actions[i] == reported[i]
            &&& forall|i: int|
                reported.len() <= i < actions.len() ==> !(#[trigger] actions[i] is Observe) && !(
                actions[i] is CloseForIdentityChange)
        }),
{
}

/// The end of a turn is reported, once, with the thread and the turn that the message names, the
/// status and the error that it gives in its parameters or else in their turn, and for the
/// workspace that the message goes to.
pub proof fn the_end_of_a_turn_is_reported(
    session: SessionView,
    message: JsonView,
    thread: Seq<char>,
    turn: Seq<char>,
)
    requires
        message.get("method"@) == Some(JsonView::Text("turn/completed"@)),
        thread_of(message) == Some(thread),
        turn_of(message) == Some(turn),
    ensures
        ({
            let actions = handled(session, message).1;
            exists|i: int|
                0 <= i < actions.len() && (#[trigger] actions[i] matches ActionView::Observe {
                    event,
                } && event matches EventView::TurnCompleted {
                    session_epoch,
                    workspace_id,
                    thread_id,
                    turn_id,
                    status,
                    error,
                } && session_epoch == session.session_epoch && workspace_id == message_route(
                    session,
                    message,
                ) && thread_id == thread && turn_id == turn && (match message.get("params"@) {
                    Some(params) => {
                        let ended = params.get("turn"@);
                        let said = match params.get("status"@) {
                            Some(member) => Some(member),
                            None => if ended is Some { ended->0.get("status"@) } else { None },
                        };
                        let failed = match params.get("error"@) {
                            Some(member) => Some(member),
                            None => if ended is Some { ended->0.get("error"@) } else { None },
                        };
                        &&& said matches Some(JsonView::Text(text)) ==> status == text
                        &&& !(said is Some && said->0 is Text) ==> status.len() == 0
                        &&& error == failed
                    },
                    None => status.len() == 0 && error is None,
                })) && forall|j: int|
                    0 <= j < actions.len() && j != i ==> !(
                    #[trigger] actions[j] matches ActionView::Observe { event }
                        && event is TurnCompleted)
        }),
{
    lemma_method_names_differ();
    lemma_reports_come_first(session, message);
    let context = answered_request(session, message);
    let first = start_answered(session, message, context);
    let actions = handled(session, message).1;
    let i = first.len() as int;
    assert(observed(session, message, message_route(session, message)).len() == 1);
    assert(actions[i] == observed(session, message, message_route(session, message))[0]);
}

/// The start of a turn is reported, once, with the thread and the turn that the message names, for
/// the workspace that the message goes to.
pub proof fn the_start_of_a_turn_is_reported(
    session: SessionView,
    message: JsonView,
    thread: Seq<char>,
    turn: Seq<char>,
)
    requires
        message.get("method"@) == Some(JsonView::Text("turn/started"@)),
        thread_of(message) == Some(thread),
        turn_of(message) == Some(turn),
    ensures
        ({
            let actions = handled(session, message).1;
            exists|i: int|
                0 <= i < actions.len() && (#[trigger] actions[i] matches ActionView::Observe {
                    event,
                } && event matches EventView::TurnStarted {
                    session_epoch,
                    workspace_id,
                    thread_id,
                    turn_id,
                } && session_epoch == session.session_epoch && workspace_id == message_route(
                    session,
                    message,
                ) && thread_id == thread && turn_id == turn) && forall|j: int|
                    0 <= j < actions.len() && j != i ==> !(
                    #[trigger] actions[j] matches ActionView::Observe { event }
                        && event is TurnStarted)
        }),
{
    lemma_method_names_differ();
    lemma_reports_come_first(session, message);
    let context = answered_request(session, message);
    let first = start_answered(session, message, context);
    let actions = handled(session, message).1;
    let i = first.len() as int;
    assert(observed(session, message, message_route(session, message)).len() == 1);
    assert(actions[i] == observed(session, message, message_route(session, message))[0]);
}

/// New limits are reported, once, with the message itself, for the workspace that it goes to.
pub proof fn new_limits_are_reported(session: SessionView, message: JsonView)
    requires
        message.get("method"@) == Some(JsonView::Text("account/rateLimits/updated"@)),
    ensures
        ({
            let actions = handled(session, message).1;
            exists|i: int|
                0 <= i < actions.len() && #[trigger] actions[i] == (ActionView::Observe {
                    event: EventView::RateLimits {
                        session_epoch: session.session_epoch,
                        workspace_id: message_route(session, message),
                        value: message,
                    },
                }) && forall|j: int|
                    0 <= j < actions.len() && j != i ==> !(
                    #[trigger] actions[j] matches ActionView::Observe { event }
                        && event is RateLimits)
        }),
{
    lemma_method_names_differ();
    lemma_reports_come_first(session, message);
    let context = answered_request(session, message);
    let first = start_answered(session, message, context);
    let actions = handled(session, message).1;
    let i = first.len() as int;
    assert(observed(session, message, message_route(session, message)).len() == 1);
    assert(actions[i] == observed(session, message, message_route(session, message))[0]);
}

/// When the account changes or a login ends, nothing is admitted from then on, and the change is
/// reported right after, with what it was.
pub proof fn a_change_of_the_account_closes_and_is_reported(
    session: SessionView,
    message: JsonView,
    method: Seq<char>,
)
    requires
        message.get("method"@) == Some(JsonView::Text(method)),
        method == "account/updated"@ || method == "account/login/completed"@,
    ensures
        ({
            let actions = handled(session, message).1;
            exists|i: int|
                0 <= i < actions.len() - 1 && #[trigger] actions[i]
                    == ActionView::CloseForIdentityChange && actions[i + 1] == (
                ActionView::Observe {
                    event: EventView::AccountIdentityChanged {
                        session_epoch: session.session_epoch,
                        workspace_id: message_route(session, message),
                        reason: method,
                    },
                })
        }),
{
    lemma_method_names_differ();
    lemma_reports_come_first(session, message);
    let context = answered_request(session, message);
    let first = start_answered(session, message, context);
    let actions = handled(session, message).1;
    let i = first.len() as int;
    let seen = observed(session, message, message_route(session, message));
    assert(seen.len() == 2);
    assert(actions[i] == seen[0]);
    assert(actions[i + 1] == seen[1]);
}

/// Any other message reports nothing, unless it answers a request that asked for a start.
pub proof fn other_messages_report_nothing(
    session: SessionView,
    message: JsonView,
    method: Seq<char>,
    i: int,
)
    requires
        message.get("id"@) is None,
        message.get("method"@) == Some(JsonView::Text(method)),
        method != "account/rateLimits/updated"@,
        method != "turn/started"@,
        method != "turn/completed"@,
        method != "account/updated"@,
        method != "account/login/completed"@,
        0 <= i < handled(session, message).1.len(),
    ensures
        !(handled(session, message).1[i] is Observe),
        !(handled(session, message).1[i] is CloseForIdentityChange),
{
    lemma_reports_come_first(session, message);
}

/// The answer to a request that asked for a start is reported first, unless it is an error, with
/// the request's number, workspace and kind and the answer itself; the request is then no longer
/// waited for, and whoever waits gets the answer.
pub proof fn the_answer_to_a_start_is_reported(session: SessionView, message: JsonView, id: u64)
    requires
        message.get("id"@) == Some(JsonView::Unsigned(id)),
        message.get("result"@) is Some,
        message.get("error"@) is None,
        message.get("method"@) is None,
        session.request_context.dom().contains(id),
        session.request_context[id].pending_local_start is Some,
    ensures
        ({
            let context = session.request_context[id];
            let start = context.pending_local_start->0;
            let (after, actions) = handled(session, message);
            &&& actions.len() == 2
            &&& actions[0] == (ActionView::Observe {
                event: EventView::StartResponse {
                    request_id: start.request_id,
                    session_epoch: session.session_epoch,
                    workspace_id: context.workspace_id@,
                    method: start.request_kind@,
                    value: message,
                },
            })
            &&& actions[1] == (ActionView::Deliver { request_id: id })
            &&& !after.request_context.dom().contains(id)
        }),
{
    lemma_context_left(session, message, id);
}

/// Taking note of a message leaves the requests that are waited for as they are, but for the one
/// that it answers.
proof fn lemma_context_left(session: SessionView, message: JsonView, id: u64)
    requires
        message.get("id"@) == Some(JsonView::Unsigned(id)),
        message.get("result"@) is Some || message.get("error"@) is Some,
    ensures
        handled(session, message).0.request_context == session.request_context.remove(id),
{
    let context = answered_request(session, message);
    let asked = crate::routing::request_workspace(context);
    let noted = crate::routing::with_answer_threads(
        crate::routing::without_answered(session, message),
        message,
        asked,
    );
    crate::routing::lemma_listing_keeps(noted, crate::routing::threads_listed(message));
}

/// An error that answers a request for a start is no start: the failure is recorded with its
/// reason, and whoever waits gets the answer. The request is no longer waited for.
pub proof fn a_failed_start_is_recorded(session: SessionView, message: JsonView, id: u64)
    requires
        message.get("id"@) == Some(JsonView::Unsigned(id)),
        message.get("error"@) is Some,
        message.get("method"@) is None,
        session.request_context.dom().contains(id),
        session.request_context[id].pending_local_start is Some,
    ensures
        ({
            let context = session.request_context[id];
            let (after, actions) = handled(session, message);
            let said = message.get("error"@)->0.get("message"@);
            &&& actions.len() == 1
            &&& actions[0] matches ActionView::RecordFailureAndDeliver {
                request_id,
                start,
                workspace_id,
                reason,
            }
            &&& request_id == id
            &&& start == context.pending_local_start->0
            &&& workspace_id == context.workspace_id@
            &&& said matches Some(JsonView::Text(text)) ==> reason == text
            &&& !(said is Some && said->0 is Text) ==> reason == "app-server request failed"@
            &&& !after.request_context.dom().contains(id)
        }),
{
    lemma_context_left(session, message, id);
}

/// An answer to any other request, known or not, is delivered and nothing else is done.
pub proof fn any_other_answer_is_delivered(session: SessionView, message: JsonView, id: u64)
    requires
        message.get("id"@) == Some(JsonView::Unsigned(id)),
        message.get("result"@) is Some || message.get("error"@) is Some,
        message.get("method"@) is None,
        session.request_context.dom().contains(id)
            ==> session.request_context[id].pending_local_start is None,
    ensures
        handled(session, message).1 == seq![ActionView::Deliver { request_id: id }],
        handled(session, message).0.request_context == session.request_context.remove(id),
{
    lemma_context_left(session, message, id);
    assert(handled(session, message).1 =~= seq![ActionView::Deliver { request_id: id }]);
}

/// A notification about a thread goes to the workspace of the thread, and to the session's owner
/// where the thread belongs to none; to no one else. One about a thread that is watched in the
/// background goes to whoever watches it instead.
pub proof fn a_notification_goes_to_the_workspace_of_its_thread(
    session: SessionView,
    message: JsonView,
    method: Seq<char>,
    thread: Seq<char>,
    i: int,
)
    requires
        message.get("id"@) is None,
        message.get("result"@) is None,
        message.get("error"@) is None,
        message.get("method"@) == Some(JsonView::Text(method)),
        method != "thread/started"@,
        method != "codex/backgroundThread"@,
        thread_of(message) == Some(thread),
        !session.hidden_thread_ids.contains(thread),
        0 <= i < handled(session, message).1.len(),
    ensures
        ({
            let actions = handled(session, message).1;
            let target = if session.thread_workspace.dom().contains(thread) {
                session.thread_workspace[thread]
            } else {
                session.owner_workspace_id
            };
            let to = if session.background_threads.contains(thread) {
                ActionView::Callback { thread_id: thread }
            } else {
                ActionView::Forward { workspace_id: target }
            };
            &&& actions.last() == to
            &&& i < actions.len() - 1 ==> actions[i] is Observe || actions[i]
                is CloseForIdentityChange
            &&& message_route(session, message) == target
        }),
{
    lemma_method_names_differ();
    lemma_reports_come_first(session, message);
}

/// What concerns the account goes to every workspace, in their order, where the message names no
/// thread; what else names no thread goes to the session's owner.
pub proof fn what_concerns_the_account_goes_to_every_workspace(
    session: SessionView,
    message: JsonView,
    method: Seq<char>,
    k: int,
)
    requires
        message.get("id"@) is None,
        message.get("method"@) == Some(JsonView::Text(method)),
        thread_of(message) is None,
        session.workspace_ids.len() > 0,
        0 <= k < session.workspace_ids.len(),
    ensures
        ({
            let actions = handled(session, message).1;
            let count = session.workspace_ids.len();
            let account = method == "account/updated"@ || method == "account/rateLimits/updated"@
                || method == "account/login/completed"@;
            let reports: int = if method == "account/rateLimits/updated"@ { 1 } else { 2 };
            &&& account ==> actions.len() == reports + count && actions[reports + k] == (
            ActionView::Forward { workspace_id: session.workspace_ids[k] })
            &&& !account ==> actions == seq![
                ActionView::Forward { workspace_id: session.owner_workspace_id },
            ]
        }),
{
    lemma_method_names_differ();
    lemma_reports_come_first(session, message);
}

/// A notification about a hidden thread is shown to no one and delivered to no one, unless it says
/// that the thread is archived or is about hiding it; what it reports is still reported.
pub proof fn a_hidden_thread_is_kept_from_view(
    session: SessionView,
    message: JsonView,
    method: Seq<char>,
    thread: Seq<char>,
    i: int,
)
    requires
        message.get("id"@) is None,
        message.get("result"@) is None,
        message.get("error"@) is None,
        message.get("method"@) == Some(JsonView::Text(method)),
        method != "thread/started"@,
        thread_of(message) == Some(thread),
        session.hidden_thread_ids.contains(thread),
        0 <= i < handled(session, message).1.len(),
    ensures
        ({
            let actions = handled(session, message).1;
            &&& method != "thread/archived"@ && method != "codex/backgroundThread"@ ==> actions[i]
                is Observe || actions[i] is CloseForIdentityChange
            &&& method == "thread/archived"@ || method == "codex/backgroundThread"@
                ==> actions.last() is Forward || actions.last() is Callback
        }),
{
    lemma_method_names_differ();
    lemma_reports_come_first(session, message);
}

/// A thread is hidden by a message that asks for it or names no action, and by the start of a
/// thread that only consolidates memories; by the latter nothing but the hiding is shown. No other
/// notification hides a thread, and no thread but the message's is hidden.
pub proof fn a_thread_is_hidden_on_request(
    session: SessionView,
    message: JsonView,
    method: Seq<char>,
    thread: Seq<char>,
    other: Seq<char>,
)
    requires
        message.get("id"@) is None,
        message.get("method"@) == Some(JsonView::Text(method)),
        thread_of(message) == Some(thread),
        method != "thread/archived"@,
    ensures
        ({
            let (after, actions) = handled(session, message);
            let action = match message.get("params"@) {
                Some(params) => params.get("action"@),
                None => None,
            };
            let asked = method == "codex/backgroundThread"@ && (action is None || action == Some(
                JsonView::Text("hide"@),
            ));
            let shown = method == "codex/backgroundThread"@ && action == Some(
                JsonView::Text("show"@),
            );
            let memory = method == "thread/started"@ && consolidates_memory(
                started_source(message),
            );
            &&& asked || memory ==> after.hidden_thread_ids.contains(thread)
            &&& memory ==> actions == seq![
                ActionView::Emit {
                    workspace_id: message_route(session, message),
                    message: JsonView::Object(
                        seq![
                            ("method"@, JsonView::Text("codex/backgroundThread"@)),
                            (
                                "params"@,
                                JsonView::Object(
                                    seq![
                                        ("action"@, JsonView::Text("hide"@)),
                                        ("threadId"@, JsonView::Text(thread)),
                                    ],
                                ),
                            ),
                        ],
                    ),
                },
            ]
            &&& (method != "codex/backgroundThread"@ && !memory) || shown
                ==> after.hidden_thread_ids == session.hidden_thread_ids
            &&& other != thread ==> (after.hidden_thread_ids.contains(other)
                <==> session.hidden_thread_ids.contains(other))
        }),
{
    lemma_method_names_differ();
    lemma_reports_come_first(session, message);
    reveal_strlit("hide");
    reveal_strlit("show");
    assert(crate::text::lowercase("hide"@) =~= "hide"@);
    assert(crate::text::lowercase("show"@) =~= "show"@);
    assert("hide"@[0] != "show"@[0]);
    let before = session.hidden_thread_ids;
    let grown = before.push(thread);
    assert(grown[before.len() as int] == thread);
    if before.contains(other) {
        let k = choose|k: int| 0 <= k < before.len() && before[k] == other;
        assert(grown[k] == other);
    }
    if grown.contains(other) && other != thread {
        let k = choose|k: int| 0 <= k < grown.len() && grown[k] == other;
        assert(before[k] == other);
    }
}

/// A thread that is archived belongs to no workspace any more and is no longer hidden; the other
/// threads stay as they are.
pub proof fn an_archived_thread_is_forgotten(
    session: SessionView,
    message: JsonView,
    thread: Seq<char>,
    other: Seq<char>,
)
    requires
        message.get("id"@) is None,
        message.get("method"@) == Some(JsonView::Text("thread/archived"@)),
        thread_of(message) == Some(thread),
    ensures
        ({
            let after = handled(session, message).0;
            &&& after.thread_workspace == session.thread_workspace.remove(thread)
            &&& !after.hidden_thread_ids.contains(thread)
            &&& other != thread ==> (after.hidden_thread_ids.contains(other)
                <==> session.hidden_thread_ids.contains(other))
        }),
{
    lemma_method_names_differ();
    crate::collections::removing_a_text_keeps_the_others(session.hidden_thread_ids, thread, other);
}

/// A blank line says nothing; a line that is no document is shown to the session's owner as an
/// error, with the line itself; any other line is the message that it holds.
pub proof fn a_line_is_its_message(session: SessionView, line: Seq<char>)
    ensures
        trimmed(line).len() == 0 ==> line_handled(session, line) == (
            session,
            Seq::<ActionView>::empty(),
        ),
        trimmed(line).len() > 0 ==> match document_in(line) {
            Ok(message) => line_handled(session, line) == handled(session, message),
            Err(error) => line_handled(session, line) == (
                session,
                seq![
                    ActionView::Emit {
                        workspace_id: session.owner_workspace_id,
                        message: JsonView::Object(
                            seq![
                                ("method"@, JsonView::Text("codex/parseError"@)),
                                (
                                    "params"@,
                                    JsonView::Object(
                                        seq![
                                            ("error"@, JsonView::Text(error)),
                                            ("raw"@, JsonView::Text(line)),
                                        ],
                                    ),
                                ),
                            ],
                        ),
                    },
                ],
            ),
        },
{
}

proof fn lemma_all_given(
    threads: Map<Seq<char>, Seq<char>>,
    ids: Seq<Seq<char>>,
    workspace_id: Seq<char>,
    thread: Seq<char>,
)
    ensures
        ({
            let after = all_given(threads, ids, workspace_id);
            &&& ids.contains(thread) ==> after.dom().contains(thread) && after[thread]
                == workspace_id
            &&& !ids.contains(thread) ==> (after.dom().contains(thread) <==> threads.dom().contains(
                thread,
            )) && (threads.dom().contains(thread) ==> after[thread] == threads[thread])
        }),
    decreases ids.len(),
{
    if ids.len() > 0 {
        lemma_all_given(threads, ids.drop_last(), workspace_id, thread);
        lemma_in_last(ids, thread);
    }
}

proof fn lemma_in_last(ids: Seq<Seq<char>>, id: Seq<char>)
    requires
        ids.len() > 0,
    ensures
        ids.contains(id) <==> ids.last() == id || ids.drop_last().contains(id),
{
    if ids.contains(id) {
        let k = choose|k: int| 0 <= k < ids.len() && ids[k] == id;
        if k < ids.len() - 1 {
            assert(ids.drop_last()[k] == id);
        }
    }
    if ids.drop_last().contains(id) {
        let k = choose|k: int| 0 <= k < ids.drop_last().len() && ids.drop_last()[k] == id;
        assert(ids[k] == id);
    }
    assert(ids[ids.len() - 1] == ids.last());
}

proof fn lemma_all_defaulted(
    threads: Map<Seq<char>, Seq<char>>,
    ids: Seq<Seq<char>>,
    workspace_id: Seq<char>,
    thread: Seq<char>,
)
    ensures
        ({
            let after = all_defaulted(threads, ids, workspace_id);
            &&& threads.dom().contains(thread) ==> after.dom().contains(thread) && after[thread]
                == threads[thread]
            &&& !threads.dom().contains(thread) && ids.contains(thread) ==> after.dom().contains(
                thread,
            ) && after[thread] == workspace_id
            &&& !threads.dom().contains(thread) && !ids.contains(thread) ==> !after.dom().contains(
                thread,
            )
        }),
    decreases ids.len(),
{
    if ids.len() > 0 {
        lemma_all_defaulted(threads, ids.drop_last(), workspace_id, thread);
        lemma_in_last(ids, thread);
    }
}

/// The threads that an answer names belong to the workspace that asked, from then on; where it
/// names none as related, its own thread does. No other thread changes hands.
pub proof fn an_answer_gives_its_threads_to_whoever_asked(
    session: SessionView,
    message: JsonView,
    id: u64,
    thread: Seq<char>,
)
    requires
        message.get("id"@) == Some(JsonView::Unsigned(id)),
        message.get("result"@) is Some,
        message.get("method"@) is None,
        session.request_context.dom().contains(id),
        session.request_context[id].pending_local_start is None,
        session.request_context[id].method@ != "thread/list"@,
    ensures
        ({
            let workspace_id = session.request_context[id].workspace_id@;
            let before = session.thread_workspace;
            let after = handled(session, message).0.thread_workspace;
            let related = related_threads(message);
            let named = related.contains(thread) || (related.len() == 0 && thread_of(message)
                == Some(thread));
            &&& named ==> after.dom().contains(thread) && after[thread] == workspace_id
            &&& !named ==> (after.dom().contains(thread) <==> before.dom().contains(thread)) && (
            before.dom().contains(thread) ==> after[thread] == before[thread])
        }),
{
    let workspace_id = session.request_context[id].workspace_id@;
    lemma_all_given(session.thread_workspace, related_threads(message), workspace_id, thread);
    if related_threads(message).len() == 0 {
        assert(!related_threads(message).contains(thread));
    }
}

/// The threads that an item names belong to the workspace that the message goes to, unless they
/// belong to one already.
pub proof fn an_item_gives_its_threads_where_they_have_none(
    session: SessionView,
    message: JsonView,
    thread: Seq<char>,
)
    requires
        message.get("id"@) is None,
        message.get("method"@) == Some(JsonView::Text("item/started"@)) || message.get("method"@)
            == Some(JsonView::Text("item/completed"@)),
        thread_of(message) is None || !session.hidden_thread_ids.contains(thread_of(message)->0),
    ensures
        ({
            let before = session.thread_workspace;
            let after = handled(session, message).0.thread_workspace;
            let named = related_threads(message).contains(thread);
            &&& before.dom().contains(thread) ==> after.dom().contains(thread) && after[thread]
                == before[thread]
            &&& !before.dom().contains(thread) && named ==> after.dom().contains(thread)
                && after[thread] == message_route(session, message)
            &&& !before.dom().contains(thread) && !named ==> !after.dom().contains(thread)
        }),
{
    lemma_method_names_differ();
    lemma_all_defaulted(
        session.thread_workspace,
        related_threads(message),
        message_route(session, message),
        thread,
    );
}

/// Of the threads that are listed, one that consolidates memory belongs to no workspace and is
/// hidden; any other belongs to the workspace that its directory lies in, if any.
pub proof fn a_listed_thread_goes_to_the_workspace_of_its_directory(
    session: SessionView,
    listed: Seq<ThreadListView>,
    thread: ThreadListView,
)
    ensures
        ({
            let before = with_listed(session, listed);
            let after = with_listed(session, listed.push(thread));
            let id = thread.thread_id;
            let place = if thread.cwd is Some {
                workspace_of(session.workspace_roots, thread.cwd->0)
            } else {
                None
            };
            &&& with_listed(session, Seq::<ThreadListView>::empty()) == session
            &&& thread.is_memory_consolidation ==> after.thread_workspace
                == before.thread_workspace.remove(id) && after.hidden_thread_ids.contains(id)
            &&& !thread.is_memory_consolidation && place is Some ==> after.thread_workspace
                == before.thread_workspace.insert(id, place->0) && after.hidden_thread_ids
                == before.hidden_thread_ids
            &&& !thread.is_memory_consolidation && place is None ==> after == before
        }),
{
    assert(listed.push(thread).drop_last() == listed);
    let before = with_listed(session, listed);
    crate::collections::adding_a_text_keeps_the_others(
        before.hidden_thread_ids,
        thread.thread_id,
        thread.thread_id,
    );
}

/// What a list of threads answers is taken note of, once the threads of the answer belong to the
/// workspace that asked.
pub proof fn an_answered_list_is_taken_note_of(session: SessionView, message: JsonView, id: u64)
    requires
        message.get("id"@) == Some(JsonView::Unsigned(id)),
        message.get("result"@) is Some,
        message.get("method"@) is None,
        session.request_context.dom().contains(id),
        session.request_context[id].pending_local_start is None,
        session.request_context[id].method@ == "thread/list"@,
        related_threads(message).len() == 0,
        thread_of(message) is None,
    ensures
        ({
            let left = SessionView {
                request_context: session.request_context.remove(id),
                ..session
            };
            let after = handled(session, message).0;
            let noted = with_listed(left, listed_threads(message.get("result"@)->0));
            &&& after.thread_workspace == noted.thread_workspace
            &&& after.hidden_thread_ids == noted.hidden_thread_ids
        }),
{
}

/// The thread of an answered start belongs to the workspace that the answer goes to: that of a
/// review to the one the result names as its own, any other to the one the answer names or, where
/// it names none, the one that was expected.
pub proof fn a_started_thread_belongs_to_where_its_answer_goes(
    session: SessionView,
    message: JsonView,
    id: u64,
    thread: Seq<char>,
)
    requires
        message.get("id"@) == Some(JsonView::Unsigned(id)),
        message.get("result"@) is Some,
        message.get("error"@) is None,
        message.get("method"@) is None,
        session.request_context.dom().contains(id),
        session.request_context[id].pending_local_start is Some,
        ({
            let start = session.request_context[id].pending_local_start->0;
            let review = start.request_kind@ == "review/start"@;
            ||| review && review_thread_of(message) == Some(thread)
            ||| !review && thread_of(message) == Some(thread)
            ||| !review && thread_of(message) is None && text_view(start.expected_thread_id)
                == Some(thread)
        }),
    ensures
        ({
            let after = handled(session, message).0.thread_workspace;
            after.dom().contains(thread) && after[thread] == message_route(session, message)
        }),
{
}

} // verus!
