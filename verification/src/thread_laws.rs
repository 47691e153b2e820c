//! Which threads, turns and workspaces messages and paths lead to, stated on their members and
//! characters.

use crate::json::JsonView;
use crate::text::{lower, lowercase, replaced, trimmed};
use crate::text_laws::small_letters_stand_for_capitals;
use crate::threads::{
    agent_ids_in, agent_ids_in_all, agent_ids_of, best_root, best_root_is_the_longest,
    consolidates_memory, container_ids, container_ids_of, distinct, ids_in, ids_in_all, ids_of,
    kind_keys, listed_in_all, listed_thread, listed_threads, listed_under, normalized_root, own_ids,
    related_threads, review_thread_of, root_holds, started_source, status_keys, status_keys_of,
    thread_of, turn_of, workspace_of, ThreadListView,
};
use vstd::prelude::*;

verus! {

/// A message's thread is named in its parameters, or else in its result: as `threadId`, as
/// `thread_id` or as the `id` of its `thread`, in that order.
pub proof fn a_thread_is_named_in_three_ways(message: JsonView, id: Seq<char>)
    ensures
        ({
            let names = |c: JsonView|
                {
                    let text = JsonView::Text(id);
                    let outer = c.get("threadId"@) is None && c.get("thread_id"@) is None;
                    ||| c.get("threadId"@) == Some(text)
                    ||| c.get("threadId"@) is None && c.get("thread_id"@) == Some(text)
                    ||| outer && (c.get("thread"@) matches Some(thread) && thread.get("id"@)
                        == Some(text))
                };
            let silent = |c: JsonView|
                c.get("threadId"@) is None && c.get("thread_id"@) is None && c.get("thread"@)
                    is None;
            let params = message.get("params"@);
            let result = message.get("result"@);
            &&& params is Some && names(params->0) ==> thread_of(message) == Some(id)
            &&& (params is None || silent(params->0)) && result is Some && names(result->0)
                ==> thread_of(message) == Some(id)
            &&& (params is None || silent(params->0)) && (result is None || silent(result->0))
                ==> thread_of(message) is None
        }),
{
}

/// A message's turn is named in its parameters, or else in its result: as `turnId`, as `turn_id`
/// or as the `id` of its `turn`, in that order, without the white space around it. A blank name is
/// none.
pub proof fn a_turn_is_named_in_three_ways(message: JsonView, id: Seq<char>)
    ensures
        ({
            let names = |c: JsonView|
                {
                    let text = JsonView::Text(id);
                    let outer = c.get("turnId"@) is None && c.get("turn_id"@) is None;
                    ||| c.get("turnId"@) == Some(text)
                    ||| c.get("turnId"@) is None && c.get("turn_id"@) == Some(text)
                    ||| outer && (c.get("turn"@) matches Some(turn) && turn.get("id"@) == Some(
                        text,
                    ))
                };
            let silent = |c: JsonView|
                c.get("turnId"@) is None && c.get("turn_id"@) is None && c.get("turn"@) is None;
            let params = message.get("params"@);
            let result = message.get("result"@);
            let blank = trimmed(id).len() == 0;
            &&& params is Some && names(params->0) && !blank ==> turn_of(message) == Some(
                trimmed(id),
            )
            &&& (params is None || silent(params->0)) && result is Some && names(result->0)
                && !blank ==> turn_of(message) == Some(trimmed(id))
            &&& params is Some && names(params->0) && blank && result is None ==> turn_of(message)
                is None
            &&& (params is None || silent(params->0)) && (result is None || silent(result->0))
                ==> turn_of(message) is None
        }),
{
}

/// The thread of a review is named in the result, as `reviewThreadId` or `review_thread_id`, without
/// the white space around it; a blank name is none.
pub proof fn a_review_names_its_thread(message: JsonView, result: JsonView, id: Seq<char>)
    requires
        message.get("result"@) == Some(result),
        result.get("reviewThreadId"@) == Some(JsonView::Text(id)) || (result.get("reviewThreadId"@)
            is None && result.get("review_thread_id"@) == Some(JsonView::Text(id))),
    ensures
        trimmed(id).len() > 0 ==> review_thread_of(message) == Some(trimmed(id)),
        trimmed(id).len() == 0 ==> review_thread_of(message) is None,
{
}

proof fn lemma_in_both<T>(a: Seq<T>, b: Seq<T>, x: T)
    ensures
        (a + b).contains(x) <==> a.contains(x) || b.contains(x),
{
    let both = a + b;
    if a.contains(x) {
        let i = choose|i: int| 0 <= i < a.len() && a[i] == x;
        assert(both[i] == x);
    }
    if b.contains(x) {
        let i = choose|i: int| 0 <= i < b.len() && b[i] == x;
        assert(both[a.len() + i] == x);
    }
    if both.contains(x) {
        let i = choose|i: int| 0 <= i < both.len() && both[i] == x;
        if i < a.len() {
            assert(a[i] == x);
        } else {
            assert(b[i - a.len()] == x);
        }
    }
}

proof fn lemma_distinct_keeps(ids: Seq<Seq<char>>, id: Seq<char>)
    ensures
        distinct(ids).contains(id) <==> ids.contains(id),
    decreases ids.len(),
{
    if ids.len() > 0 {
        lemma_distinct_keeps(ids.drop_last(), id);
        let rest = distinct(ids.drop_last());
        lemma_in_both(ids.drop_last(), seq![ids.last()], id);
        assert(ids.drop_last() + seq![ids.last()] == ids);
        lemma_in_both(rest, seq![ids.last()], id);
        assert(rest + seq![ids.last()] == rest.push(ids.last()));
        assert(seq![ids.last()].contains(id) <==> ids.last() == id) by {
            assert(seq![ids.last()][0] == ids.last());
        }
    }
}

proof fn lemma_own_ids(container: JsonView, id: Seq<char>)
    requires
        container is Object,
    ensures
        ({
            let field = |c: JsonView, camel: Seq<char>, snake: Seq<char>|
                match c.get(camel) {
                    Some(member) => Some(member),
                    None => c.get(snake),
                };
            let inner = |c: Option<JsonView>|
                match c {
                    Some(json) => field(json, "threadId"@, "thread_id"@),
                    None => None,
                };
            let of_thread = match container.get("thread"@) {
                Some(thread) => thread.get("id"@),
                None => None,
            };
            let item = container.get("item"@);
            container_ids(container).contains(id) <==> {
                ||| ids_of(field(container, "threadId"@, "thread_id"@)).contains(id)
                ||| ids_of(of_thread).contains(id)
                ||| ids_of(inner(container.get("params"@))).contains(id)
                ||| ids_of(inner(container.get("result"@))).contains(id)
                ||| ids_of(field(container, "newThreadId"@, "new_thread_id"@)).contains(id)
                ||| ids_of(field(container, "receiverThreadId"@, "receiver_thread_id"@)).contains(
                    id,
                )
                ||| ids_of(field(container, "receiverThreadIds"@, "receiver_thread_ids"@)).contains(
                    id,
                )
                ||| agent_ids_of(field(container, "receiverAgents"@, "receiver_agents"@)).contains(
                    id,
                )
                ||| agent_ids_of(field(container, "receiverAgent"@, "receiver_agent"@)).contains(id)
                ||| agent_ids_of(field(container, "agentStatuses"@, "agent_statuses"@)).contains(id)
                ||| status_keys_of(container.get("statuses"@)).contains(id)
                ||| container_ids_of(item).contains(id)
            }
        }),
{
    let params = container.get("params"@);
    let result = container.get("result"@);
    let a0 = ids_of(crate::parser::field_in(container, "threadId"@, "thread_id"@));
    let a1 = ids_of(crate::threads::member_of(container.get("thread"@), "id"@));
    let a2 = ids_of(
        match params {
            Some(json) => crate::parser::field_in(json, "threadId"@, "thread_id"@),
            None => None,
        },
    );
    let a3 = ids_of(
        match result {
            Some(json) => crate::parser::field_in(json, "threadId"@, "thread_id"@),
            None => None,
        },
    );
    let a4 = ids_of(crate::parser::field_in(container, "newThreadId"@, "new_thread_id"@));
    let a5 = ids_of(crate::parser::field_in(container, "receiverThreadId"@, "receiver_thread_id"@));
    let a6 = ids_of(
        crate::parser::field_in(container, "receiverThreadIds"@, "receiver_thread_ids"@),
    );
    let a7 = agent_ids_of(
        crate::parser::field_in(container, "receiverAgents"@, "receiver_agents"@),
    );
    let a8 = agent_ids_of(crate::parser::field_in(container, "receiverAgent"@, "receiver_agent"@));
    let a9 = agent_ids_of(crate::parser::field_in(container, "agentStatuses"@, "agent_statuses"@));
    let a10 = status_keys_of(container.get("statuses"@));
    let a11 = container_ids_of(container.get("item"@));
    lemma_in_both(a0, a1, id);
    lemma_in_both(a0 + a1, a2, id);
    lemma_in_both(a0 + a1 + a2, a3, id);
    lemma_in_both(a0 + a1 + a2 + a3, a4, id);
    lemma_in_both(a0 + a1 + a2 + a3 + a4, a5, id);
    lemma_in_both(a0 + a1 + a2 + a3 + a4 + a5, a6, id);
    lemma_in_both(a0 + a1 + a2 + a3 + a4 + a5 + a6, a7, id);
    lemma_in_both(a0 + a1 + a2 + a3 + a4 + a5 + a6 + a7, a8, id);
    lemma_in_both(a0 + a1 + a2 + a3 + a4 + a5 + a6 + a7 + a8, a9, id);
    lemma_in_both(a0 + a1 + a2 + a3 + a4 + a5 + a6 + a7 + a8 + a9, a10, id);
    lemma_in_both(own_ids(container), a11, id);
}

/// The identifiers in a value are the text itself, or those of the items of an array, each without
/// the white space around it; blank ones are none.
pub proof fn identifiers_are_texts_or_arrays_of_them(text: Seq<char>, items: Seq<JsonView>, i: int)
    requires
        0 <= i < items.len(),
    ensures
        trimmed(text).len() > 0 ==> ids_in(JsonView::Text(text)) == seq![trimmed(text)],
        trimmed(text).len() == 0 ==> ids_in(JsonView::Text(text)).len() == 0,
        forall|id: Seq<char>| #[trigger]
            ids_in(items[i]).contains(id) ==> ids_in(JsonView::Array(items)).contains(id),
        forall|id: Seq<char>| #[trigger]
            agent_ids_in(items[i]).contains(id) ==> agent_ids_in(JsonView::Array(items)).contains(
                id,
            ),
    decreases items.len(),
{
    assert forall|id: Seq<char>| #[trigger] ids_in(items[i]).contains(id) implies ids_in(
        JsonView::Array(items),
    ).contains(id) by {
        lemma_ids_in_all(items, i, id);
    }
    assert forall|id: Seq<char>| #[trigger] agent_ids_in(items[i]).contains(id) implies agent_ids_in(
        JsonView::Array(items),
    ).contains(id) by {
        lemma_agent_ids_in_all(items, i, id);
    }
}

proof fn lemma_ids_in_all(items: Seq<JsonView>, i: int, id: Seq<char>)
    requires
        0 <= i < items.len(),
        ids_in(items[i]).contains(id),
    ensures
        ids_in_all(items).contains(id),
    decreases items.len(),
{
    lemma_in_both(ids_in_all(items.drop_last()), ids_in(items.last()), id);
    if i < items.len() - 1 {
        lemma_ids_in_all(items.drop_last(), i, id);
    }
}

proof fn lemma_agent_ids_in_all(items: Seq<JsonView>, i: int, id: Seq<char>)
    requires
        0 <= i < items.len(),
        agent_ids_in(items[i]).contains(id),
    ensures
        agent_ids_in_all(items).contains(id),
    decreases items.len(),
{
    lemma_in_both(agent_ids_in_all(items.drop_last()), agent_ids_in(items.last()), id);
    if i < items.len() - 1 {
        lemma_agent_ids_in_all(items.drop_last(), i, id);
    }
}

/// An agent is named by its `threadId` or `thread_id`, by its `id`, and by the `id` of its `thread`.
pub proof fn agents_are_named_by_their_threads(agent: JsonView, id: Seq<char>)
    requires
        agent is Object,
        trimmed(id).len() > 0,
        agent.get("threadId"@) == Some(JsonView::Text(id)) || (agent.get("threadId"@) is None
            && agent.get("thread_id"@) == Some(JsonView::Text(id))) || agent.get("id"@) == Some(
            JsonView::Text(id),
        ) || (agent.get("thread"@) is Some && agent.get("thread"@)->0.get("id"@) == Some(
            JsonView::Text(id),
        )),
    ensures
        agent_ids_in(agent).contains(trimmed(id)),
{
    let found = seq![trimmed(id)];
    assert(found[0] == trimmed(id));
    let a = ids_of(crate::parser::field_in(agent, "threadId"@, "thread_id"@));
    let b = ids_of(agent.get("id"@));
    let c = ids_of(
        match agent.get("thread"@) {
            Some(thread) => match thread.get("id"@) {
                Some(named) => Some(named),
                None => crate::parser::field_in(thread, "threadId"@, "thread_id"@),
            },
            None => None,
        },
    );
    lemma_in_both(a, b, trimmed(id));
    lemma_in_both(a + b, c, trimmed(id));
}

proof fn lemma_status_keys(entries: Seq<(Seq<char>, JsonView)>, i: int)
    requires
        0 <= i < entries.len(),
        trimmed(entries[i].0).len() > 0,
    ensures
        status_keys(entries).contains(trimmed(entries[i].0)),
    decreases entries.len(),
{
    let key = trimmed(entries.last().0);
    let last = if key.len() > 0 { seq![key] } else { seq![] };
    lemma_in_both(status_keys(entries.drop_last()), last, trimmed(entries[i].0));
    if i < entries.len() - 1 {
        lemma_status_keys(entries.drop_last(), i);
    } else {
        assert(last[0] == key);
    }
}

/// An object names threads by their own name, as a new thread, as one or several receivers, as
/// agents, and as those whose status it tells.
pub proof fn an_object_names_threads_in_many_ways(container: JsonView, id: Seq<char>)
    requires
        container is Object,
        trimmed(id).len() > 0,
    ensures
        ({
            let text = Some(JsonView::Text(id));
            let named = |camel: Seq<char>, snake: Seq<char>|
                container.get(camel) == text || (container.get(camel) is None && container.get(snake)
                    == text);
            let agent = |camel: Seq<char>, snake: Seq<char>|
                {
                    ||| container.get(camel) is Some && agent_ids_in(
                        container.get(camel)->0,
                    ).contains(trimmed(id))
                    ||| container.get(camel) is None && container.get(snake) is Some
                        && agent_ids_in(container.get(snake)->0).contains(trimmed(id))
                };
            let several = |camel: Seq<char>, snake: Seq<char>|
                {
                    ||| container.get(camel) is Some && ids_in(container.get(camel)->0).contains(
                        trimmed(id),
                    )
                    ||| container.get(camel) is None && container.get(snake) is Some && ids_in(
                        container.get(snake)->0,
                    ).contains(trimmed(id))
                };
            let thread = container.get("thread"@);
            let found = container_ids(container).contains(trimmed(id));
            &&& named("threadId"@, "thread_id"@) ==> found
            &&& thread is Some && thread->0.get("id"@) == text ==> found
            &&& named("newThreadId"@, "new_thread_id"@) ==> found
            &&& named("receiverThreadId"@, "receiver_thread_id"@) ==> found
            &&& several("receiverThreadIds"@, "receiver_thread_ids"@) ==> found
            &&& agent("receiverAgents"@, "receiver_agents"@) ==> found
            &&& agent("receiverAgent"@, "receiver_agent"@) ==> found
            &&& agent("agentStatuses"@, "agent_statuses"@) ==> found
            &&& (container.get("statuses"@) matches Some(JsonView::Object(entries)) && exists|
                i: int,
            |
                0 <= i < entries.len() && (#[trigger] entries[i]).0 == id) ==> found
        }),
{
    let found = seq![trimmed(id)];
    assert(found[0] == trimmed(id));
    lemma_own_ids(container, trimmed(id));
    lemma_told(container, id);
}

/// An object also names what its `item` names, and what its parameters and its result name as
/// `threadId` or `thread_id`.
pub proof fn what_an_item_names_counts(container: JsonView, inner: JsonView, id: Seq<char>)
    requires
        container is Object,
        trimmed(id).len() > 0,
    ensures
        ({
            let text = Some(JsonView::Text(id));
            let named = inner.get("threadId"@) == text || (inner.get("threadId"@) is None
                && inner.get("thread_id"@) == text);
            &&& container.get("item"@) == Some(inner) && container_ids(inner).contains(trimmed(id))
                ==> container_ids(container).contains(trimmed(id))
            &&& container.get("params"@) == Some(inner) && named ==> container_ids(
                container,
            ).contains(trimmed(id))
            &&& container.get("result"@) == Some(inner) && named ==> container_ids(
                container,
            ).contains(trimmed(id))
        }),
{
    let found = seq![trimmed(id)];
    assert(found[0] == trimmed(id));
    lemma_own_ids(container, trimmed(id));
}

/// A message is related to exactly the threads that its parameters, its result or it itself names.
pub proof fn a_message_is_related_to_the_threads_it_names(message: JsonView, id: Seq<char>)
    ensures
        ({
            let params = message.get("params"@);
            let result = message.get("result"@);
            related_threads(message).contains(id) <==> {
                ||| params is Some && container_ids(params->0).contains(id)
                ||| result is Some && container_ids(result->0).contains(id)
                ||| container_ids(message).contains(id)
            }
        }),
{
    let in_params = container_ids_of(message.get("params"@));
    let in_result = container_ids_of(message.get("result"@));
    lemma_in_both(in_params, in_result, id);
    lemma_in_both(in_params + in_result, container_ids(message), id);
    lemma_distinct_keeps(in_params + in_result + container_ids(message), id);
}

proof fn lemma_told(container: JsonView, id: Seq<char>)
    requires
        trimmed(id).len() > 0,
    ensures
        (container.get("statuses"@) matches Some(JsonView::Object(entries)) && exists|i: int|
            0 <= i < entries.len() && (#[trigger] entries[i]).0 == id) ==> status_keys_of(
            container.get("statuses"@),
        ).contains(trimmed(id)),
{
    if let Some(JsonView::Object(entries)) = container.get("statuses"@) {
        if exists|i: int| 0 <= i < entries.len() && (#[trigger] entries[i]).0 == id {
            let i = choose|i: int| 0 <= i < entries.len() && (#[trigger] entries[i]).0 == id;
            lemma_status_keys(entries, i);
        }
    }
}

/// A message without parameters, result and members of its own is related to no thread.
pub proof fn a_message_that_names_nothing_is_related_to_nothing()
    ensures
        related_threads(JsonView::Object(seq![])).len() == 0,
        related_threads(JsonView::Null).len() == 0,
{
    let none = related_threads(JsonView::Object(seq![]));
    if none.len() > 0 {
        let id = none[0];
        let message = JsonView::Object(seq![]);
        lemma_distinct_keeps(
            container_ids_of(message.get("params"@)) + container_ids_of(message.get("result"@))
                + container_ids(message),
            id,
        );
        lemma_own_ids(message, id);
        lemma_in_both(Seq::<Seq<char>>::empty(), container_ids(message), id);
        assert(container_ids_of(message.get("params"@)) + container_ids_of(message.get("result"@))
            == Seq::<Seq<char>>::empty());
    }
}

/// A path without backslashes, without a slash at its end, without a drive and with at most one
/// slash at its start is kept as it is, capitals too.
pub proof fn plain_paths_are_kept(path: Seq<char>)
    requires
        !path.contains('\\'),
        path.len() > 0,
        path.last() != '/',
        path.len() < 2 || !(path[0] == '/' && path[1] == '/'),
        path.len() < 2 || path[1] != ':',
    ensures
        normalized_root(path) == path,
{
    reveal_strlit("//?/unc/");
    reveal_strlit("//?/");
    reveal_strlit("//./");
    reveal_strlit("//");
    assert(replaced(path, '\\', '/') == path);
    let low = lowercase(path);
    assert(low.len() == path.len());
    if path.len() >= 2 {
        small_letters_stand_for_capitals(path, 0);
        small_letters_stand_for_capitals(path, 1);
        assert(low[0] == '/' ==> path[0] == '/');
        assert(low[1] == '/' ==> path[1] == '/');
        if "//"@.is_prefix_of(low) {
            assert(low.take(2)[0] == "//"@[0] && low.take(2)[1] == "//"@[1]);
        }
        if "//?/unc/"@.is_prefix_of(low) {
            assert(low.subrange(0, 8)[0] == '/' && low.subrange(0, 8)[1] == '/');
        }
        if "//?/"@.is_prefix_of(low) {
            assert(low.subrange(0, 4)[0] == '/' && low.subrange(0, 4)[1] == '/');
        }
        if "//./"@.is_prefix_of(low) {
            assert(low.subrange(0, 4)[0] == '/' && low.subrange(0, 4)[1] == '/');
        }
        if "//"@.is_prefix_of(path) {
            assert(path.subrange(0, 2)[0] == '/' && path.subrange(0, 2)[1] == '/');
        }
    }
}

/// A path on a drive is kept in small letters, with slashes between its parts.
pub proof fn paths_on_a_drive_are_kept_in_small_letters(path: Seq<char>)
    requires
        path.len() > 3,
        'a' <= lower(path[0]) <= 'z',
        path[1] == ':',
        path[2] == '/' || path[2] == '\\',
        path.last() != '/' && path.last() != '\\',
    ensures
        normalized_root(path) == lowercase(replaced(path, '\\', '/')),
        normalized_root("//?/"@ + path) == normalized_root(path),
        normalized_root("//./"@ + path) == normalized_root(path),
{
    reveal_strlit("//?/unc/");
    reveal_strlit("//?/");
    reveal_strlit("//./");
    reveal_strlit("//");
    let slashed = replaced(path, '\\', '/');
    assert(slashed.len() == path.len());
    assert(slashed.last() == path.last());
    assert(slashed[0] == path[0] && slashed[1] == ':' && slashed[2] == '/');
    let low = lowercase(slashed);
    small_letters_stand_for_capitals(slashed, 0);
    assert(low[0] != '/');
    if "//?/unc/"@.is_prefix_of(low) {
        assert(low.subrange(0, 8)[0] == '/');
    }
    if "//?/"@.is_prefix_of(low) {
        assert(low.subrange(0, 4)[0] == '/');
    }
    if "//./"@.is_prefix_of(low) {
        assert(low.subrange(0, 4)[0] == '/');
    }
    lemma_marked_path("//?/"@, path);
    lemma_marked_path("//./"@, path);
}

proof fn lemma_marked_path(mark: Seq<char>, path: Seq<char>)
    requires
        mark == "//?/"@ || mark == "//./"@,
        path.len() > 3,
        'a' <= lower(path[0]) <= 'z',
        path[1] == ':',
        path[2] == '/' || path[2] == '\\',
        path.last() != '/' && path.last() != '\\',
    ensures
        normalized_root(mark + path) == lowercase(replaced(path, '\\', '/')),
{
    reveal_strlit("//?/unc/");
    reveal_strlit("//?/");
    reveal_strlit("//./");
    let slashed = replaced(path, '\\', '/');
    let whole = mark + path;
    let all = replaced(whole, '\\', '/');
    assert(all == mark + slashed);
    assert(all.last() == path.last());
    let low = lowercase(all);
    assert forall|i: int| 0 <= i < 4 implies low[i] == mark[i] by {
        small_letters_stand_for_capitals(all, i);
    }
    assert(low.subrange(0, 4) == mark);
    if "//?/unc/"@.is_prefix_of(low) {
        assert(low.subrange(0, 8)[5] == 'n');
        small_letters_stand_for_capitals(all, 5);
        assert(all[5] == slashed[1]);
    }
    assert(all.skip(4) == slashed);
    assert(slashed[0] == path[0] && slashed[1] == ':' && slashed[2] == '/');
}

/// A path on a share is kept in small letters too, however it is marked.
pub proof fn paths_on_a_share_are_kept_in_small_letters(path: Seq<char>)
    requires
        path.len() > 0,
        path[0] != '/' && path[0] != '\\' && path[0] != '?' && path[0] != '.',
        path.last() != '/' && path.last() != '\\',
    ensures
        normalized_root("//"@ + path) == "//"@ + lowercase(replaced(path, '\\', '/')),
        normalized_root("//?/UNC/"@ + path) == normalized_root("//"@ + path),
{
    reveal_strlit("//?/unc/");
    reveal_strlit("//?/UNC/");
    reveal_strlit("//?/");
    reveal_strlit("//./");
    reveal_strlit("//");
    let slashed = replaced(path, '\\', '/');
    let all = replaced("//"@ + path, '\\', '/');
    assert(all == "//"@ + slashed);
    assert(all.last() == path.last());
    let low = lowercase(all);
    small_letters_stand_for_capitals(all, 2);
    assert(all[2] == path[0]);
    if "//?/unc/"@.is_prefix_of(low) {
        assert(low.subrange(0, 8)[2] == '?');
    }
    if "//?/"@.is_prefix_of(low) {
        assert(low.subrange(0, 4)[2] == '?');
    }
    if "//./"@.is_prefix_of(low) {
        assert(low.subrange(0, 4)[2] == '.');
    }
    assert(all.subrange(0, 2) == "//"@);
    assert(lowercase(all) == "//"@ + lowercase(slashed)) by {
        assert forall|i: int| 0 <= i < all.len() implies #[trigger] lowercase(all)[i] == (
        "//"@ + lowercase(slashed))[i] by {
            small_letters_stand_for_capitals(all, i);
            if i >= 2 {
                assert(all[i] == slashed[i - 2]);
            }
        }
    }
    let marked = "//?/UNC/"@ + path;
    let rest = replaced(marked, '\\', '/');
    assert(rest == "//?/UNC/"@ + slashed);
    assert(rest.last() == path.last());
    let lowered = lowercase(rest);
    assert forall|i: int| 0 <= i < 8 implies lowered[i] == "//?/unc/"@[i] by {
        small_letters_stand_for_capitals(rest, i);
        assert(rest[i] == "//?/UNC/"@[i]);
    }
    assert(lowered.subrange(0, 8) == "//?/unc/"@);
    assert(rest.skip(8) == slashed);
}

/// A directory belongs to the workspace whose root it is or lies below; of several the one with the
/// longest root has it, and where there is none, no workspace has it.
pub proof fn a_directory_belongs_to_the_nearest_root(
    roots: Seq<(Seq<char>, Seq<char>)>,
    cwd: Seq<char>,
)
    ensures
        ({
            let place = normalized_root(cwd);
            let holds = |root: Seq<char>|
                root.len() > 0 && (root == place || (root.len() < place.len() && place.take(
                    root.len() as int,
                ) == root && place[root.len() as int] == '/'));
            match workspace_of(roots, cwd) {
                Some(id) => exists|i: int|
                    0 <= i < roots.len() && (#[trigger] roots[i]).0 == id && holds(roots[i].1)
                        && forall|k: int|
                        0 <= k < roots.len() && holds((#[trigger] roots[k]).1) ==> roots[k].1.len()
                            <= roots[i].1.len(),
                None => forall|k: int| 0 <= k < roots.len() ==> !holds((#[trigger] roots[k]).1),
            }
        }),
{
    let place = normalized_root(cwd);
    best_root_is_the_longest(roots, place);
    assert forall|root: Seq<char>| #[trigger] root_holds(root, place) <==> (root.len() > 0 && (root
        == place || (root.len() < place.len() && place.take(root.len() as int) == root
        && place[root.len() as int] == '/'))) by {
        if root.len() < place.len() {
            assert(place.take(root.len() as int) == place.subrange(0, root.len() as int));
        }
    }
    match best_root(roots, place) {
        Some(i) => {
            assert(root_holds(roots[i].1, place));
            assert forall|k: int| 0 <= k < roots.len() implies (root_holds(
                (#[trigger] roots[k]).1,
                place,
            ) ==> roots[k].1.len() <= roots[i].1.len()) by {}
        },
        None => {
            assert forall|k: int| 0 <= k < roots.len() implies !root_holds(
                (#[trigger] roots[k]).1,
                place,
            ) by {}
        },
    }
}

/// A source that is a text names memory consolidation where, in small letters, without the white
/// space around it and with underscores for spaces and hyphens, it is that name, on its own or as
/// a subagent's.
pub proof fn a_text_may_name_memory_consolidation(s: Seq<char>)
    ensures
        ({
            let name = replaced(replaced(lowercase(trimmed(s)), ' ', '_'), '-', '_');
            consolidates_memory(Some(JsonView::Text(s))) <==> (name == "memory_consolidation"@
                || name == "subagent_"@ + "memory_consolidation"@ || name == "sub_agent_"@
                + "memory_consolidation"@)
        }),
{
    reveal_strlit("memory_consolidation");
    reveal_strlit("subagent_");
    reveal_strlit("sub_agent_");
    let name = replaced(replaced(lowercase(trimmed(s)), ' ', '_'), '-', '_');
    let kind = "memory_consolidation"@;
    if "subagent_"@.is_prefix_of(name) {
        assert(name == "subagent_"@ + name.skip(9));
        assert(name.subrange(0, 9)[3] == 'a');
        assert(name[3] == 'a');
        assert(kind[3] == 'o');
        assert(("sub_agent_"@ + kind)[3] == '_');
        if name == "subagent_"@ + kind {
            assert(name.skip(9) == kind);
        }
    } else if "sub_agent_"@.is_prefix_of(name) {
        assert(name == "sub_agent_"@ + name.skip(10));
        assert(name.subrange(0, 10)[3] == '_');
        assert(kind[3] == 'o');
        assert(("subagent_"@ + kind)[3] == 'a');
        if name == "sub_agent_"@ + kind {
            assert(name.skip(10) == kind);
        }
    } else {
        if name == "subagent_"@ + kind {
            assert(name.subrange(0, 9) == "subagent_"@);
        }
        if name == "sub_agent_"@ + kind {
            assert(name.subrange(0, 10) == "sub_agent_"@);
        }
    }
}

/// A source that is an object names its subagent, under one of three names: as a text, by the
/// member that tells its kind, or by the only member beside how it was started.
pub proof fn an_object_names_its_subagent(source: JsonView, subagent: JsonView, s: Seq<char>)
    requires
        source is Object,
        source.get("subAgent"@) == Some(subagent) || (source.get("subAgent"@) is None && (
        source.get("sub_agent"@) == Some(subagent) || (source.get("sub_agent"@) is None
            && source.get("subagent"@) == Some(subagent)))),
    ensures
        ({
            let named = consolidates_memory(Some(JsonView::Text(s)));
            let text = Some(JsonView::Text(s));
            let kind = |c: JsonView|
                {
                    ||| c.get("kind"@) == text
                    ||| c.get("kind"@) is None && c.get("type"@) == text
                    ||| c.get("kind"@) is None && c.get("type"@) is None && c.get("name"@) == text
                    ||| c.get("kind"@) is None && c.get("type"@) is None && c.get("name"@) is None
                        && c.get("id"@) == text
                };
            let silent = |c: JsonView|
                c.get("kind"@) is None && c.get("type"@) is None && c.get("name"@) is None
                    && c.get("id"@) is None;
            &&& subagent == JsonView::Text(s) ==> consolidates_memory(Some(source)) == named
            &&& subagent is Object && kind(subagent) ==> consolidates_memory(Some(source)) == named
            &&& subagent matches JsonView::Object(entries) ==> silent(subagent) && kind_keys(
                entries,
            ) == seq![s] ==> consolidates_memory(Some(source)) == named
        }),
{
    let outer = seq!["subAgent"@, "sub_agent"@, "subagent"@];
    let inner = seq!["kind"@, "type"@, "name"@, "id"@];
    assert(outer.drop_first() == seq!["sub_agent"@, "subagent"@]);
    assert(outer.drop_first().drop_first() == seq!["subagent"@]);
    assert(inner.drop_first() == seq!["type"@, "name"@, "id"@]);
    assert(inner.drop_first().drop_first() == seq!["name"@, "id"@]);
    assert(inner.drop_first().drop_first().drop_first() == seq!["id"@]);
    assert(inner.drop_first().drop_first().drop_first().drop_first() == Seq::<Seq<char>>::empty());
    reveal_with_fuel(crate::threads::first_member, 6);
}

/// The keys that may tell a kind are all but the two that tell how a subagent was started.
pub proof fn how_it_was_started_tells_no_kind(entries: Seq<(Seq<char>, JsonView)>, key: Seq<char>)
    ensures
        kind_keys(entries).contains(key) <==> key != "thread_spawn"@ && key != "threadSpawn"@
            && exists|i: int| 0 <= i < entries.len() && (#[trigger] entries[i]).0 == key,
    decreases entries.len(),
{
    if entries.len() > 0 {
        let before = entries.drop_last();
        how_it_was_started_tells_no_kind(before, key);
        let last = entries.last().0;
        let added = if last != "thread_spawn"@ && last != "threadSpawn"@ {
            seq![last]
        } else {
            seq![]
        };
        lemma_in_both(kind_keys(before), added, key);
        assert(added.len() > 0 ==> added[0] == last);
        assert(added.contains(key) ==> key == last);
        if added.len() > 0 && key == last {
            assert(added.contains(key));
        }
        if exists|i: int| 0 <= i < before.len() && (#[trigger] before[i]).0 == key {
            let i = choose|i: int| 0 <= i < before.len() && (#[trigger] before[i]).0 == key;
            assert(entries[i].0 == key);
        }
        if exists|i: int| 0 <= i < entries.len() && (#[trigger] entries[i]).0 == key {
            let i = choose|i: int| 0 <= i < entries.len() && (#[trigger] entries[i]).0 == key;
            if i < before.len() {
                assert(before[i].0 == key);
            }
        }
        if last == key {
            assert(entries[entries.len() - 1].0 == key);
        }
    }
}

/// What started a thread stands with the thread, or else among the parameters.
pub proof fn the_source_stands_with_the_thread(message: JsonView, params: JsonView)
    requires
        message.get("params"@) == Some(params),
    ensures
        ({
            let thread = params.get("thread"@);
            &&& thread is Some && thread->0.get("source"@) is Some ==> started_source(message)
                == thread->0.get("source"@)
            &&& thread is None || thread->0.get("source"@) is None ==> started_source(message)
                == params.get("source"@)
        }),
{
}

/// A list of threads has what its items list, in their order; an object lists itself and then what
/// stands under `threads`, `items`, `results` and `data`.
pub proof fn lists_of_threads_are_gone_through(items: Seq<JsonView>, i: int, entry: ThreadListView)
    requires
        0 <= i < items.len(),
        listed_threads(items[i]).contains(entry),
    ensures
        listed_threads(JsonView::Array(items)).contains(entry),
        forall|value: JsonView| #[trigger]
            listed_threads(value).contains(entry) || !(value.get("threads"@) == Some(
                JsonView::Array(items),
            ) || value.get("items"@) == Some(JsonView::Array(items)) || value.get("results"@)
                == Some(JsonView::Array(items)) || value.get("data"@) == Some(
                JsonView::Array(items),
            )),
{
    lemma_listed_in_all(items, i, entry);
    assert forall|value: JsonView|
        value.get("threads"@) == Some(JsonView::Array(items)) || value.get("items"@) == Some(
            JsonView::Array(items),
        ) || value.get("results"@) == Some(JsonView::Array(items)) || value.get("data"@) == Some(
            JsonView::Array(items),
        ) implies #[trigger] listed_threads(value).contains(entry) by {
        lemma_listed_parts(value, entry);
    }
}

proof fn lemma_listed_parts(value: JsonView, entry: ThreadListView)
    requires
        value is Object,
    ensures
        listed_threads(value).contains(entry) <==> (listed_thread(value) == Some(entry)
            || listed_under(value, "threads"@).contains(entry) || listed_under(
            value,
            "items"@,
        ).contains(entry) || listed_under(value, "results"@).contains(entry) || listed_under(
            value,
            "data"@,
        ).contains(entry)),
{
    let own = match listed_thread(value) {
        Some(thread) => seq![thread],
        None => seq![],
    };
    assert(own.contains(entry) <==> listed_thread(value) == Some(entry)) by {
        if own.len() > 0 {
            assert(own[0] == listed_thread(value)->0);
        }
    }
    let threads = listed_under(value, "threads"@);
    let items = listed_under(value, "items"@);
    let results = listed_under(value, "results"@);
    let data = listed_under(value, "data"@);
    lemma_in_both(own, threads, entry);
    lemma_in_both(own + threads, items, entry);
    lemma_in_both(own + threads + items, results, entry);
    lemma_in_both(own + threads + items + results, data, entry);
}

proof fn lemma_listed_in_all(items: Seq<JsonView>, i: int, entry: ThreadListView)
    requires
        0 <= i < items.len(),
        listed_threads(items[i]).contains(entry),
    ensures
        listed_in_all(items).contains(entry),
    decreases items.len(),
{
    lemma_in_both(listed_in_all(items.drop_last()), listed_threads(items.last()), entry);
    if i < items.len() - 1 {
        lemma_listed_in_all(items.drop_last(), i, entry);
    }
}

/// A listed thread is known by its `threadId`, `thread_id` or `id`, or the `id` of its `thread`; it
/// runs where its `cwd` says, or that of its `thread`, and its `source` tells whether it
/// consolidates memory.
pub proof fn a_listed_thread_is_known_by_its_members(
    object: JsonView,
    id: Seq<char>,
    cwd: Option<Seq<char>>,
    source: Option<JsonView>,
)
    requires
        object is Object,
        ({
            let text = Some(JsonView::Text(id));
            let thread = object.get("thread"@);
            let outer = object.get("threadId"@) is None && object.get("thread_id"@) is None;
            let at = |c: Option<JsonView>|
                if cwd is Some { c == Some(JsonView::Text(cwd->0)) } else { c is None };
            &&& {
                ||| object.get("threadId"@) == text
                ||| object.get("threadId"@) is None && object.get("thread_id"@) == text
                ||| outer && object.get("id"@) == text
                ||| outer && object.get("id"@) is None && thread is Some && thread->0.get("id"@)
                    == text
            }
            &&& {
                ||| cwd is Some && at(object.get("cwd"@))
                ||| object.get("cwd"@) is None && thread is Some && at(thread->0.get("cwd"@))
                ||| cwd is None && object.get("cwd"@) is None && thread is None
            }
            &&& {
                ||| object.get("source"@) is Some && source == object.get("source"@)
                ||| object.get("source"@) is None && thread is Some && source == thread->0.get(
                    "source"@,
                )
                ||| object.get("source"@) is None && thread is None && source is None
            }
        }),
    ensures
        listed_threads(object).contains(
            ThreadListView {
                thread_id: id,
                cwd,
                is_memory_consolidation: consolidates_memory(source),
            },
        ),
{
    let entry = ThreadListView {
        thread_id: id,
        cwd,
        is_memory_consolidation: consolidates_memory(source),
    };
    assert(listed_thread(object) == Some(entry));
    lemma_listed_parts(object, entry);
}

} // verus!
