//! What messages say of threads: which they name, where they run, and what started them.

use crate::collections::{has_text, lemma_pushed_text, text_views};
use crate::json::{lemma_member_is_smaller, views, Json, JsonView};
use crate::parser::{field, field_in};
use crate::text::{
    begins_with, from_chars, lower, lowercase, replace_char, replaced, same_text, to_chars,
    to_lowercase, trim_end_char, trim_text, trimmed, without_trailing,
};
use vstd::prelude::*;
use vstd::string::*;

verus! {

/// The text, where the value is one.
pub open spec fn text_of(value: Option<JsonView>) -> Option<Seq<char>> {
    match value {
        Some(json) => json.text(),
        None => None,
    }
}

/// The member of an optional object.
pub open spec fn member_of(value: Option<JsonView>, key: Seq<char>) -> Option<JsonView> {
    match value {
        Some(json) => json.get(key),
        None => None,
    }
}

/// `text` without white space around it, unless nothing is left.
pub open spec fn nonblank(text: Option<Seq<char>>) -> Option<Seq<char>> {
    match text {
        Some(s) => if trimmed(s).len() > 0 { Some(trimmed(s)) } else { None },
        None => None,
    }
}

pub(crate) fn text_in<'a>(value: Option<&'a Json>) -> (r: Option<&'a str>)
    ensures
        match r {
            Some(s) => text_of(opt_view(value)) == Some(s@),
            None => text_of(opt_view(value)) is None,
        },
{
    match value {
        Some(json) => json.as_str(),
        None => None,
    }
}

/// What an optional document holds.
pub open spec fn opt_view(value: Option<&Json>) -> Option<JsonView> {
    match value {
        Some(json) => Some(json@),
        None => None,
    }
}

pub(crate) fn member_in<'a>(value: Option<&'a Json>, key: &str) -> (r: Option<&'a Json>)
    ensures
        opt_view(r) == member_of(opt_view(value), key@),
{
    match value {
        Some(json) => json.get(key),
        None => None,
    }
}

fn nonblank_text(text: Option<&str>) -> (r: Option<String>)
    ensures
        crate::model::text_view(r) == nonblank(
            match text {
                Some(s) => Some(s@),
                None => None,
            },
        ),
{
    match text {
        Some(s) => {
            let short = trim_text(s);
            if short.as_str().unicode_len() > 0 {
                Some(short)
            } else {
                None
            }
        },
        None => None,
    }
}

/// The thread that a message's parameters or result name.
pub open spec fn thread_of_container(container: JsonView) -> Option<Seq<char>> {
    match text_of(field_in(container, "threadId"@, "thread_id"@)) {
        Some(id) => Some(id),
        None => text_of(member_of(container.get("thread"@), "id"@)),
    }
}

/// The thread that a message names, in its parameters or else in its result.
pub open spec fn thread_of(message: JsonView) -> Option<Seq<char>> {
    let in_params = match message.get("params"@) {
        Some(params) => thread_of_container(params),
        None => None,
    };
    match in_params {
        Some(id) => Some(id),
        None => match message.get("result"@) {
            Some(result) => thread_of_container(result),
            None => None,
        },
    }
}

pub(crate) fn extract_from_container(container: &Json) -> (r: Option<String>)
    ensures
        crate::model::text_view(r) == thread_of_container(container@),
{
    match text_in(field(container, "threadId", "thread_id")) {
        Some(id) => Some(id.to_owned()),
        None => match text_in(member_in(container.get("thread"), "id")) {
            Some(id) => Some(id.to_owned()),
            None => None,
        },
    }
}

/// The thread that a message names.
pub fn extract_thread_id(value: &Json) -> (r: Option<String>)
    ensures
        crate::model::text_view(r) == thread_of(value@),
{
    if let Some(params) = value.get("params") {
        if let Some(id) = extract_from_container(params) {
            return Some(id);
        }
    }
    match value.get("result") {
        Some(result) => extract_from_container(result),
        None => None,
    }
}

/// The turn that a message's parameters or result name.
pub open spec fn turn_of_container(container: JsonView) -> Option<Seq<char>> {
    let named = match field_in(container, "turnId"@, "turn_id"@) {
        Some(id) => Some(id),
        None => member_of(container.get("turn"@), "id"@),
    };
    nonblank(text_of(named))
}

/// The turn that a message names, in its parameters or else in its result.
pub open spec fn turn_of(message: JsonView) -> Option<Seq<char>> {
    let in_params = match message.get("params"@) {
        Some(params) => turn_of_container(params),
        None => None,
    };
    match in_params {
        Some(id) => Some(id),
        None => match message.get("result"@) {
            Some(result) => turn_of_container(result),
            None => None,
        },
    }
}

fn extract_turn_from(container: &Json) -> (r: Option<String>)
    ensures
        crate::model::text_view(r) == turn_of_container(container@),
{
    let named = match field(container, "turnId", "turn_id") {
        Some(id) => Some(id),
        None => member_in(container.get("turn"), "id"),
    };
    nonblank_text(text_in(named))
}

/// The turn that a message names.
pub fn extract_turn_id(value: &Json) -> (r: Option<String>)
    ensures
        crate::model::text_view(r) == turn_of(value@),
{
    if let Some(params) = value.get("params") {
        if let Some(id) = extract_turn_from(params) {
            return Some(id);
        }
    }
    match value.get("result") {
        Some(result) => extract_turn_from(result),
        None => None,
    }
}

/// The thread of the review that a response has started.
pub open spec fn review_thread_of(message: JsonView) -> Option<Seq<char>> {
    match message.get("result"@) {
        Some(result) => nonblank(text_of(field_in(result, "reviewThreadId"@, "review_thread_id"@))),
        None => None,
    }
}

/// The thread of the review that a response has started.
pub fn extract_review_thread_id(value: &Json) -> (r: Option<String>)
    ensures
        crate::model::text_view(r) == review_thread_of(value@),
{
    match value.get("result") {
        Some(result) => nonblank_text(text_in(field(result, "reviewThreadId", "review_thread_id"))),
        None => None,
    }
}

/// The ids in a value: a text that is not blank, or the ids in each item of an array.
pub open spec fn ids_in(value: JsonView) -> Seq<Seq<char>>
    decreases value,
{
    match value {
        JsonView::Text(s) => if trimmed(s).len() > 0 { seq![trimmed(s)] } else { seq![] },
        JsonView::Array(items) => ids_in_all(items),
        _ => seq![],
    }
}

/// The ids in each of the values, in order.
pub open spec fn ids_in_all(items: Seq<JsonView>) -> Seq<Seq<char>>
    decreases items,
{
    if items.len() == 0 {
        seq![]
    } else {
        ids_in_all(items.drop_last()) + ids_in(items.last())
    }
}

/// The ids in an optional value.
pub open spec fn ids_of(value: Option<JsonView>) -> Seq<Seq<char>> {
    match value {
        Some(json) => ids_in(json),
        None => seq![],
    }
}

fn push_ids(out: &mut Vec<String>, json: &Json)
    ensures
        text_views(final(out)@) == text_views(old(out)@) + ids_in(json@),
    decreases json@,
{
    let ghost before = text_views(out@);
    match json {
        Json::Text(s) => {
            let short = trim_text(s.as_str());
            if short.as_str().unicode_len() > 0 {
                proof {
                    lemma_pushed_text(out@, short);
                }
                out.push(short);
            }
            assert(text_views(out@) =~= before + ids_in(json@));
        },
        Json::Array(items) => {
            let ghost all = views(items@);
            assert(json@->Array_0 =~= all);
            let mut i: usize = 0;
            assert(text_views(out@) =~= before + ids_in_all(all.take(0)));
            while i < items.len()
                invariant
                    i <= items@.len(),
                    all == views(items@),
                    json@ == JsonView::Array(all),
                    text_views(out@) == before + ids_in_all(all.take(i as int)),
                decreases items@.len() - i,
            {
                assert(all[i as int] == items@[i as int]@);
                assert(decreases_to!(json@ => json@->Array_0));
                assert(decreases_to!(all => all[i as int]));
                push_ids(out, &items[i]);
                proof {
                    assert(all.take(i + 1).drop_last() =~= all.take(i as int));
                    assert(text_views(out@) =~= before + ids_in_all(all.take(i + 1)));
                }
                i += 1;
            }
            assert(all.take(all.len() as int) =~= all);
        },
        _ => {
            assert(text_views(out@) =~= before + ids_in(json@));
        },
    }
}

/// Adds the ids in a value.
pub fn push_thread_id(out: &mut Vec<String>, value: Option<&Json>)
    ensures
        text_views(final(out)@) == text_views(old(out)@) + ids_of(opt_view(value)),
{
    let ghost before = text_views(out@);
    match value {
        Some(json) => push_ids(out, json),
        None => {
            assert(text_views(out@) =~= before + ids_of(opt_view(value)));
        },
    }
}

/// The thread ids of an agent, or of each agent in an array.
pub open spec fn agent_ids_in(value: JsonView) -> Seq<Seq<char>>
    decreases value,
{
    match value {
        JsonView::Array(items) => agent_ids_in_all(items),
        JsonView::Object(_) => ids_of(field_in(value, "threadId"@, "thread_id"@)) + ids_of(
            value.get("id"@),
        ) + ids_of(
            match value.get("thread"@) {
                Some(thread) => match thread.get("id"@) {
                    Some(id) => Some(id),
                    None => field_in(thread, "threadId"@, "thread_id"@),
                },
                None => None,
            },
        ),
        _ => seq![],
    }
}

/// The thread ids of each of the agents, in order.
pub open spec fn agent_ids_in_all(items: Seq<JsonView>) -> Seq<Seq<char>>
    decreases items,
{
    if items.len() == 0 {
        seq![]
    } else {
        agent_ids_in_all(items.drop_last()) + agent_ids_in(items.last())
    }
}

/// The thread ids of an optional agent.
pub open spec fn agent_ids_of(value: Option<JsonView>) -> Seq<Seq<char>> {
    match value {
        Some(json) => agent_ids_in(json),
        None => seq![],
    }
}

fn push_agent_ids(out: &mut Vec<String>, json: &Json)
    ensures
        text_views(final(out)@) == text_views(old(out)@) + agent_ids_in(json@),
    decreases json@,
{
    let ghost before = text_views(out@);
    match json {
        Json::Array(items) => {
            let ghost all = views(items@);
            assert(json@->Array_0 =~= all);
            let mut i: usize = 0;
            assert(text_views(out@) =~= before + agent_ids_in_all(all.take(0)));
            while i < items.len()
                invariant
                    i <= items@.len(),
                    all == views(items@),
                    json@ == JsonView::Array(all),
                    text_views(out@) == before + agent_ids_in_all(all.take(i as int)),
                decreases items@.len() - i,
            {
                assert(all[i as int] == items@[i as int]@);
                assert(decreases_to!(json@ => json@->Array_0));
                assert(decreases_to!(all => all[i as int]));
                push_agent_ids(out, &items[i]);
                proof {
                    assert(all.take(i + 1).drop_last() =~= all.take(i as int));
                    assert(text_views(out@) =~= before + agent_ids_in_all(all.take(i + 1)));
                }
                i += 1;
            }
            assert(all.take(all.len() as int) =~= all);
        },
        Json::Object(_) => {
            push_thread_id(out, field(json, "threadId", "thread_id"));
            push_thread_id(out, json.get("id"));
            let in_thread = match json.get("thread") {
                Some(thread) => match thread.get("id") {
                    Some(id) => Some(id),
                    None => field(thread, "threadId", "thread_id"),
                },
                None => None,
            };
            push_thread_id(out, in_thread);
            assert(text_views(out@) =~= before + agent_ids_in(json@));
        },
        _ => {
            assert(text_views(out@) =~= before + agent_ids_in(json@));
        },
    }
}

fn collect_agent_thread_ids(value: Option<&Json>, out: &mut Vec<String>)
    ensures
        text_views(final(out)@) == text_views(old(out)@) + agent_ids_of(opt_view(value)),
{
    let ghost before = text_views(out@);
    match value {
        Some(json) => push_agent_ids(out, json),
        None => {
            assert(text_views(out@) =~= before + agent_ids_of(opt_view(value)));
        },
    }
}

/// The names of the members, without white space around them, where one is not blank.
pub open spec fn status_keys(entries: Seq<(Seq<char>, JsonView)>) -> Seq<Seq<char>>
    decreases entries.len(),
{
    if entries.len() == 0 {
        seq![]
    } else {
        let key = trimmed(entries.last().0);
        status_keys(entries.drop_last()) + (if key.len() > 0 { seq![key] } else { seq![] })
    }
}

/// The names of the members of an optional object.
pub open spec fn status_keys_of(value: Option<JsonView>) -> Seq<Seq<char>> {
    match value {
        Some(JsonView::Object(entries)) => status_keys(entries),
        _ => seq![],
    }
}

fn push_status_keys(out: &mut Vec<String>, value: Option<&Json>)
    ensures
        text_views(final(out)@) == text_views(old(out)@) + status_keys_of(opt_view(value)),
{
    let ghost before = text_views(out@);
    match value {
        Some(Json::Object(entries)) => {
            let ghost all = opt_view(value)->0->Object_0;
            let mut i: usize = 0;
            assert(text_views(out@) =~= before + status_keys(all.take(0)));
            while i < entries.len()
                invariant
                    i <= entries@.len(),
                    all.len() == entries@.len(),
                    opt_view(value) == Some(JsonView::Object(all)),
                    forall|k: int| 0 <= k < all.len() ==> (#[trigger] all[k]).0 == entries@[k].0@,
                    text_views(out@) == before + status_keys(all.take(i as int)),
                decreases entries@.len() - i,
            {
                let key = trim_text(entries[i].0.as_str());
                proof {
                    assert(all.take(i + 1).drop_last() =~= all.take(i as int));
                    assert(all.take(i + 1).last() == all[i as int]);
                    lemma_pushed_text(out@, key);
                }
                let ghost held = text_views(out@);
                if key.as_str().unicode_len() > 0 {
                    out.push(key);
                    assert(text_views(out@) =~= held + seq![key@]);
                }
                assert(text_views(out@) =~= before + status_keys(all.take(i + 1)));
                i += 1;
            }
            assert(all.take(all.len() as int) =~= all);
        },
        _ => {
            assert(text_views(out@) =~= before + status_keys_of(opt_view(value)));
        },
    }
}

/// The thread ids that an object names in its own members.
pub open spec fn own_ids(container: JsonView) -> Seq<Seq<char>> {
    let params = container.get("params"@);
    let result = container.get("result"@);
    ids_of(field_in(container, "threadId"@, "thread_id"@)) + ids_of(
        member_of(container.get("thread"@), "id"@),
    ) + ids_of(
        match params {
            Some(json) => field_in(json, "threadId"@, "thread_id"@),
            None => None,
        },
    ) + ids_of(
        match result {
            Some(json) => field_in(json, "threadId"@, "thread_id"@),
            None => None,
        },
    ) + ids_of(field_in(container, "newThreadId"@, "new_thread_id"@)) + ids_of(
        field_in(container, "receiverThreadId"@, "receiver_thread_id"@),
    ) + ids_of(field_in(container, "receiverThreadIds"@, "receiver_thread_ids"@)) + agent_ids_of(
        field_in(container, "receiverAgents"@, "receiver_agents"@),
    ) + agent_ids_of(field_in(container, "receiverAgent"@, "receiver_agent"@)) + agent_ids_of(
        field_in(container, "agentStatuses"@, "agent_statuses"@),
    ) + status_keys_of(container.get("statuses"@))
}

/// The thread ids that an object and the items nested in it name.
pub open spec fn container_ids(container: JsonView) -> Seq<Seq<char>>
    decreases container,
    via container_ids_terminates
{
    match container {
        JsonView::Object(_) => own_ids(container) + (match container.get("item"@) {
            Some(item) => container_ids(item),
            None => seq![],
        }),
        _ => seq![],
    }
}

#[via_fn]
proof fn container_ids_terminates(container: JsonView) {
    lemma_member_is_smaller(container, "item"@);
}

/// The thread ids of an optional container.
pub open spec fn container_ids_of(value: Option<JsonView>) -> Seq<Seq<char>> {
    match value {
        Some(json) => container_ids(json),
        None => seq![],
    }
}

/// `ids` without what has come before.
pub open spec fn distinct(ids: Seq<Seq<char>>) -> Seq<Seq<char>>
    decreases ids.len(),
{
    if ids.len() == 0 {
        ids
    } else {
        let rest = distinct(ids.drop_last());
        if rest.contains(ids.last()) {
            rest
        } else {
            rest.push(ids.last())
        }
    }
}

/// The threads that a message is about, each once, in the order in which they are named.
pub open spec fn related_threads(message: JsonView) -> Seq<Seq<char>> {
    distinct(
        container_ids_of(message.get("params"@)) + container_ids_of(message.get("result"@))
            + container_ids(message),
    )
}

proof fn lemma_appended(before: Seq<Seq<char>>, found: Seq<Seq<char>>, more: Seq<Seq<char>>)
    ensures
        before + found + more == before + (found + more),
{
    assert(before + found + more =~= before + (found + more));
}

fn push_own_ids(container: &Json, out: &mut Vec<String>)
    ensures
        text_views(final(out)@) == text_views(old(out)@) + own_ids(container@),
{
    let ghost before = text_views(out@);
    let ghost c = container@;
    push_thread_id(out, field(container, "threadId", "thread_id"));
    let ghost mut found = ids_of(field_in(c, "threadId"@, "thread_id"@));
    push_thread_id(out, member_in(container.get("thread"), "id"));
    proof {
        let more = ids_of(member_of(c.get("thread"@), "id"@));
        lemma_appended(before, found, more);
        found = found + more;
    }
    let in_params = match container.get("params") {
        Some(params) => field(params, "threadId", "thread_id"),
        None => None,
    };
    push_thread_id(out, in_params);
    proof {
        let more = ids_of(opt_view(in_params));
        lemma_appended(before, found, more);
        found = found + more;
    }
    let in_result = match container.get("result") {
        Some(result) => field(result, "threadId", "thread_id"),
        None => None,
    };
    push_thread_id(out, in_result);
    proof {
        let more = ids_of(opt_view(in_result));
        lemma_appended(before, found, more);
        found = found + more;
    }
    push_thread_id(out, field(container, "newThreadId", "new_thread_id"));
    proof {
        let more = ids_of(field_in(c, "newThreadId"@, "new_thread_id"@));
        lemma_appended(before, found, more);
        found = found + more;
    }
    push_thread_id(out, field(container, "receiverThreadId", "receiver_thread_id"));
    proof {
        let more = ids_of(field_in(c, "receiverThreadId"@, "receiver_thread_id"@));
        lemma_appended(before, found, more);
        found = found + more;
    }
    push_thread_id(out, field(container, "receiverThreadIds", "receiver_thread_ids"));
    proof {
        let more = ids_of(field_in(c, "receiverThreadIds"@, "receiver_thread_ids"@));
        lemma_appended(before, found, more);
        found = found + more;
    }
    collect_agent_thread_ids(field(container, "receiverAgents", "receiver_agents"), out);
    proof {
        let more = agent_ids_of(field_in(c, "receiverAgents"@, "receiver_agents"@));
        lemma_appended(before, found, more);
        found = found + more;
    }
    collect_agent_thread_ids(field(container, "receiverAgent", "receiver_agent"), out);
    proof {
        let more = agent_ids_of(field_in(c, "receiverAgent"@, "receiver_agent"@));
        lemma_appended(before, found, more);
        found = found + more;
    }
    collect_agent_thread_ids(field(container, "agentStatuses", "agent_statuses"), out);
    proof {
        let more = agent_ids_of(field_in(c, "agentStatuses"@, "agent_statuses"@));
        lemma_appended(before, found, more);
        found = found + more;
    }
    push_status_keys(out, container.get("statuses"));
    proof {
        let more = status_keys_of(c.get("statuses"@));
        lemma_appended(before, found, more);
        found = found + more;
    }
}

fn collect_from_container(container: &Json, out: &mut Vec<String>)
    ensures
        text_views(final(out)@) == text_views(old(out)@) + container_ids(container@),
    decreases container@,
{
    let ghost before = text_views(out@);
    match container {
        Json::Object(_) => {
            push_own_ids(container, out);
            if let Some(item) = container.get("item") {
                proof {
                    lemma_member_is_smaller(container@, "item"@);
                }
                collect_from_container(item, out);
            }
            assert(text_views(out@) =~= before + container_ids(container@));
        },
        _ => {
            assert(text_views(out@) =~= before + container_ids(container@));
        },
    }
}

fn without_repeats(texts: Vec<String>) -> (r: Vec<String>)
    ensures
        text_views(r@) == distinct(text_views(texts@)),
{
    let ghost all = text_views(texts@);
    let mut out: Vec<String> = Vec::new();
    let mut i: usize = 0;
    assert(text_views(out@) =~= distinct(all.take(0)));
    while i < texts.len()
        invariant
            i <= texts@.len(),
            all == text_views(texts@),
            text_views(out@) == distinct(all.take(i as int)),
        decreases texts@.len() - i,
    {
        proof {
            assert(all.take(i + 1).drop_last() =~= all.take(i as int));
            assert(all.take(i + 1).last() == texts@[i as int]@);
        }
        if !has_text(&out, texts[i].as_str()) {
            let copy = texts[i].clone();
            proof {
                lemma_pushed_text(out@, copy);
            }
            out.push(copy);
        }
        i += 1;
    }
    assert(all.take(all.len() as int) =~= all);
    out
}

/// The threads that a message is about.
pub fn extract_related_thread_ids(value: &Json) -> (r: Vec<String>)
    ensures
        text_views(r@) == related_threads(value@),
{
    let mut out: Vec<String> = Vec::new();
    if let Some(params) = value.get("params") {
        collect_from_container(params, &mut out);
    }
    if let Some(result) = value.get("result") {
        collect_from_container(result, &mut out);
    }
    collect_from_container(value, &mut out);
    assert(text_views(out@) =~= container_ids_of(value@.get("params"@)) + container_ids_of(
        value@.get("result"@),
    ) + container_ids(value@));
    without_repeats(out)
}

/// Whether the path begins with a drive: a letter, a colon and a slash.
pub open spec fn on_drive(path: Seq<char>) -> bool {
    &&& path.len() >= 3
    &&& 'a' <= lower(path[0]) <= 'z'
    &&& path[1] == ':'
    &&& path[2] == '/'
}

/// A path in the form in which roots are compared: slashes only, none at the end, without the
/// marks of a raw Windows path, and in small letters where it is on a drive or a share.
pub open spec fn normalized_root(path: Seq<char>) -> Seq<char> {
    let slashed = without_trailing(replaced(path, '\\', '/'), |c: char| c == '/');
    let low = lowercase(slashed);
    let bare = if "//?/unc/"@.is_prefix_of(low) {
        "//"@ + slashed.skip(8)
    } else if "//?/"@.is_prefix_of(low) || "//./"@.is_prefix_of(low) {
        slashed.skip(4)
    } else {
        slashed
    };
    if on_drive(bare) || "//"@.is_prefix_of(bare) {
        lowercase(bare)
    } else {
        bare
    }
}

/// A path in the form in which roots are compared.
pub fn normalize_root_path(value: &str) -> (r: String)
    ensures
        r@ == normalized_root(value@),
{
    let replaced_text = replace_char(value, '\\', '/');
    let slashed = trim_end_char(replaced_text.as_str(), '/');
    let low = to_lowercase(slashed.as_str());
    proof {
        reveal_strlit("//?/unc/");
        reveal_strlit("//?/");
        reveal_strlit("//./");
        reveal_strlit("//");
    }
    let chars = to_chars(slashed.as_str());
    let bare = if begins_with(low.as_str(), "//?/unc/") {
        let mut out = "//".to_owned();
        let tail = from_chars(&chars, 8, chars.len());
        assert(tail@ =~= slashed@.skip(8));
        out.append(tail.as_str());
        out
    } else if begins_with(low.as_str(), "//?/") || begins_with(low.as_str(), "//./") {
        let tail = from_chars(&chars, 4, chars.len());
        assert(tail@ =~= slashed@.skip(4));
        tail
    } else {
        slashed
    };
    let bare_chars = to_chars(bare.as_str());
    let is_drive_path = bare_chars.len() >= 3 && is_letter(bare_chars[0]) && bare_chars[1] == ':'
        && bare_chars[2] == '/';
    if is_drive_path || begins_with(bare.as_str(), "//") {
        to_lowercase(bare.as_str())
    } else {
        bare
    }
}

proof fn lemma_slashed(path: Seq<char>)
    ensures
        ({
            let slashed = without_trailing(replaced(path, '\\', '/'), |c: char| c == '/');
            &&& !slashed.contains('\\')
            &&& slashed.len() > 0 ==> slashed.last() != '/'
            &&& slashed.len() == 0 <==> forall|i: int|
                0 <= i < path.len() ==> #[trigger] path[i] == '/' || path[i] == '\\'
        }),
    decreases path.len(),
{
    let strip = |c: char| c == '/';
    let all = replaced(path, '\\', '/');
    if path.len() > 0 {
        assert(all.drop_last() =~= replaced(path.drop_last(), '\\', '/'));
        assert(all.last() == if path.last() == '\\' { '/' } else { path.last() });
        if all.last() == '/' {
            lemma_slashed(path.drop_last());
            let rest = path.drop_last();
            assert(forall|i: int| 0 <= i < rest.len() ==> #[trigger] rest[i] == path[i]);
            if forall|i: int| 0 <= i < rest.len() ==> #[trigger] rest[i] == '/' || rest[i] == '\\' {
                assert forall|i: int| 0 <= i < path.len() implies #[trigger] path[i] == '/'
                    || path[i] == '\\' by {
                    if i < rest.len() {
                        assert(rest[i] == path[i]);
                    }
                }
            }
        } else {
            assert(path[path.len() - 1] != '/' && path[path.len() - 1] != '\\');
        }
    }
}

/// A root in the form in which roots are compared holds no backslash and does not end in a
/// slash. It is empty exactly where the path is made of slashes and backslashes alone.
pub proof fn normalized_roots_hold_slashes_between_parts(path: Seq<char>)
    ensures
        !normalized_root(path).contains('\\'),
        normalized_root(path).len() > 0 ==> normalized_root(path).last() != '/',
        normalized_root(path).len() == 0 <==> forall|i: int|
            0 <= i < path.len() ==> #[trigger] path[i] == '/' || path[i] == '\\',
{
    reveal_strlit("//?/unc/");
    reveal_strlit("//?/");
    reveal_strlit("//./");
    reveal_strlit("//");
    lemma_slashed(path);
    let slashed = without_trailing(replaced(path, '\\', '/'), |c: char| c == '/');
    let low = lowercase(slashed);
    assert(low.len() == slashed.len());
    if low.len() > 0 {
        assert(low.last() == lower(slashed.last()));
    }
    let bare = if "//?/unc/"@.is_prefix_of(low) {
        assert("//?/unc/"@[7] == low[7]);
        assert(low.len() > 8) by {
            if low.len() == 8 {
                assert(low.last() == '/');
            }
        }
        "//"@ + slashed.skip(8)
    } else if "//?/"@.is_prefix_of(low) || "//./"@.is_prefix_of(low) {
        assert(low[3] == '/') by {
            assert("//?/"@.is_prefix_of(low) ==> "//?/"@[3] == low[3]);
            assert("//./"@.is_prefix_of(low) ==> "//./"@[3] == low[3]);
        }
        assert(low.len() > 4) by {
            if low.len() == 4 {
                assert(low.last() == '/');
            }
        }
        slashed.skip(4)
    } else {
        slashed
    };
    assert(bare.len() == 0 <==> slashed.len() == 0);
    assert(bare.len() > 0 ==> bare.last() == slashed.last());
    assert(!bare.contains('\\')) by {
        assert forall|i: int| 0 <= i < bare.len() implies bare[i] != '\\' by {
            if "//?/unc/"@.is_prefix_of(low) {
                if i >= 2 {
                    assert(slashed.contains(slashed[i + 6]));
                }
            } else if "//?/"@.is_prefix_of(low) || "//./"@.is_prefix_of(low) {
                assert(slashed.contains(slashed[i + 4]));
            } else {
                assert(slashed.contains(slashed[i]));
            }
        }
    }
    let small = lowercase(bare);
    assert(!small.contains('\\')) by {
        assert forall|i: int| 0 <= i < small.len() implies small[i] != '\\' by {
            assert(bare.contains(bare[i]));
            assert(small[i] == lower(bare[i]));
        }
    }
    if small.len() > 0 {
        assert(small.last() == lower(bare.last()));
    }
}

/// A slash at the end makes no difference to a root, nor does it matter which way its slashes
/// lean.
pub proof fn roots_differ_in_no_slash(path: Seq<char>)
    ensures
        normalized_root(path.push('/')) == normalized_root(path),
        normalized_root(replaced(path, '/', '\\')) == normalized_root(path),
{
    assert(replaced(path.push('/'), '\\', '/').drop_last() =~= replaced(path, '\\', '/'));
    assert(replaced(path.push('/'), '\\', '/').last() == '/');
    assert(replaced(replaced(path, '/', '\\'), '\\', '/') =~= replaced(path, '\\', '/'));
}

fn is_letter(c: char) -> (r: bool)
    ensures
        r == ('a' <= lower(c) <= 'z'),
{
    let low = crate::text::lower_char(c);
    'a' <= low && low <= 'z'
}

/// Whether a root holds the directory: it is the directory or one above it.
pub open spec fn root_holds(root: Seq<char>, cwd: Seq<char>) -> bool {
    &&& root.len() > 0
    &&& root == cwd || (root.len() < cwd.len() && root.is_prefix_of(cwd) && cwd[root.len() as int]
        == '/')
}

/// What the roots of workspaces hold, each an id and a root.
pub open spec fn root_views(roots: Seq<(String, String)>) -> Seq<(Seq<char>, Seq<char>)> {
    roots.map_values(|root: (String, String)| (root.0@, root.1@))
}

/// The position of the workspace to choose for the directory: among those whose root holds it,
/// one with the longest root, the latest of them.
pub open spec fn best_root(roots: Seq<(Seq<char>, Seq<char>)>, cwd: Seq<char>) -> Option<int>
    decreases roots.len(),
{
    if roots.len() == 0 {
        None
    } else {
        let earlier = best_root(roots.drop_last(), cwd);
        let root = roots.last().1;
        if root_holds(root, cwd) && (earlier matches Some(i) ==> roots[i].1.len() <= root.len()) {
            Some(roots.len() - 1)
        } else {
            earlier
        }
    }
}

/// The workspace that a directory belongs to.
pub open spec fn workspace_of(roots: Seq<(Seq<char>, Seq<char>)>, cwd: Seq<char>) -> Option<
    Seq<char>,
> {
    match best_root(roots, normalized_root(cwd)) {
        Some(i) => Some(roots[i].0),
        None => None,
    }
}

/// The chosen root holds the directory and no longer one does; none is chosen only where none
/// holds it.
pub proof fn best_root_is_the_longest(roots: Seq<(Seq<char>, Seq<char>)>, cwd: Seq<char>)
    ensures
        match best_root(roots, cwd) {
            Some(i) => 0 <= i < roots.len() && root_holds(roots[i].1, cwd) && forall|k: int|
                0 <= k < roots.len() && root_holds((#[trigger] roots[k]).1, cwd)
                    ==> roots[k].1.len() <= roots[i].1.len(),
            None => forall|k: int|
                0 <= k < roots.len() ==> !root_holds((#[trigger] roots[k]).1, cwd),
        },
    decreases roots.len(),
{
    if roots.len() > 0 {
        let rest = roots.drop_last();
        best_root_is_the_longest(rest, cwd);
        assert(forall|k: int| 0 <= k < rest.len() ==> #[trigger] roots[k] == rest[k]);
    }
}

fn holds(root: &str, cwd: &Vec<char>) -> (r: bool)
    ensures
        r == root_holds(root@, cwd@),
{
    let chars = to_chars(root);
    if chars.len() == 0 || chars.len() > cwd.len() {
        return false;
    }
    if !crate::text::stands_at(cwd, 0, &chars) {
        assert(root@ == cwd@ ==> cwd@.subrange(0, root@.len() as int) =~= root@);
        return false;
    }
    assert(cwd@.subrange(0, root@.len() as int) == root@);
    if chars.len() == cwd.len() {
        assert(root@ =~= cwd@);
        return true;
    }
    cwd[chars.len()] == '/'
}

/// The workspace that a directory belongs to: the one whose root holds it and is the longest
/// that does. Where several have that root, the latest of them.
pub fn resolve_workspace_for_cwd(cwd: &str, workspace_roots: &Vec<(String, String)>) -> (r: Option<
    String,
>)
    ensures
        crate::model::text_view(r) == workspace_of(root_views(workspace_roots@), cwd@),
{
    let normalized = normalize_root_path(cwd);
    let directory = to_chars(normalized.as_str());
    let ghost roots = root_views(workspace_roots@);
    let mut best: Option<(usize, usize)> = None;
    let mut i: usize = 0;
    while i < workspace_roots.len()
        invariant
            i <= workspace_roots@.len(),
            roots == root_views(workspace_roots@),
            directory@ == normalized_root(cwd@),
            match best {
                Some((at, len)) => at < i && len == roots[at as int].1.len() && best_root(
                    roots.take(i as int),
                    directory@,
                ) == Some(at as int),
                None => best_root(roots.take(i as int), directory@) is None,
            },
        decreases workspace_roots@.len() - i,
    {
        let root = workspace_roots[i].1.as_str();
        proof {
            assert(roots[i as int] == (
                workspace_roots@[i as int].0@,
                workspace_roots@[i as int].1@,
            ));
            assert(roots.take(i + 1).drop_last() =~= roots.take(i as int));
            assert(roots.take(i + 1).last() == roots[i as int]);
        }
        if holds(root, &directory) {
            let len: usize = root.unicode_len();
            let better = match best {
                Some((_, best_len)) => len >= best_len,
                None => true,
            };
            if better {
                best = Some((i, len));
            }
        }
        i += 1;
    }
    assert(roots.take(roots.len() as int) =~= roots);
    match best {
        Some((at, _)) => {
            assert(roots[at as int].0 == workspace_roots@[at as int].0@);
            Some(workspace_roots[at].0.clone())
        },
        None => None,
    }
}

/// The kind of a subagent in its usual form: small letters, underscores between words, and
/// without the word for a subagent in front.
pub open spec fn subagent_kind(text: Seq<char>) -> Seq<char> {
    let joined = replaced(replaced(lowercase(trimmed(text)), ' ', '_'), '-', '_');
    if "subagent_"@.is_prefix_of(joined) {
        joined.skip(9)
    } else if "sub_agent_"@.is_prefix_of(joined) {
        joined.skip(10)
    } else {
        joined
    }
}

/// The kind of a subagent in its usual form.
pub fn normalize_subagent_kind(value: &str) -> (r: String)
    ensures
        r@ == subagent_kind(value@),
{
    let short = trim_text(value);
    let low = to_lowercase(short.as_str());
    let spaced = replace_char(low.as_str(), ' ', '_');
    let joined = replace_char(spaced.as_str(), '-', '_');
    proof {
        reveal_strlit("subagent_");
        reveal_strlit("sub_agent_");
    }
    let chars = to_chars(joined.as_str());
    if begins_with(joined.as_str(), "subagent_") {
        let tail = from_chars(&chars, 9, chars.len());
        assert(tail@ =~= joined@.skip(9));
        tail
    } else if begins_with(joined.as_str(), "sub_agent_") {
        let tail = from_chars(&chars, 10, chars.len());
        assert(tail@ =~= joined@.skip(10));
        tail
    } else {
        joined
    }
}

/// The kind that a text names, unless nothing is left of it.
pub open spec fn named_kind(text: Seq<char>) -> Option<Seq<char>> {
    if subagent_kind(text).len() > 0 {
        Some(subagent_kind(text))
    } else {
        None
    }
}

/// The member under the first of the names that has one.
pub open spec fn first_member(value: JsonView, names: Seq<Seq<char>>) -> Option<JsonView>
    decreases names.len(),
{
    if names.len() == 0 {
        None
    } else {
        match value.get(names[0]) {
            Some(member) => Some(member),
            None => first_member(value, names.drop_first()),
        }
    }
}

/// The names of the members that may stand for a kind: all but those of the spawning thread.
pub open spec fn kind_keys(entries: Seq<(Seq<char>, JsonView)>) -> Seq<Seq<char>>
    decreases entries.len(),
{
    if entries.len() == 0 {
        seq![]
    } else {
        let key = entries.last().0;
        kind_keys(entries.drop_last()) + (if key != "thread_spawn"@ && key != "threadSpawn"@ {
            seq![key]
        } else {
            seq![]
        })
    }
}

/// The kind that a subagent's document names: a text, a member that says so, or else its only
/// other member.
pub open spec fn kind_in_subagent(subagent: JsonView) -> Option<Seq<char>> {
    match subagent {
        JsonView::Text(s) => named_kind(s),
        JsonView::Object(entries) => match text_of(
            first_member(subagent, seq!["kind"@, "type"@, "name"@, "id"@]),
        ) {
            Some(s) => named_kind(s),
            None => if kind_keys(entries).len() == 1 {
                named_kind(kind_keys(entries)[0])
            } else {
                None
            },
        },
        _ => None,
    }
}

/// The kind of subagent that a thread's source names.
pub open spec fn kind_of_source(source: JsonView) -> Option<Seq<char>> {
    match source {
        JsonView::Text(s) => named_kind(s),
        JsonView::Object(_) => match first_member(
            source,
            seq!["subAgent"@, "sub_agent"@, "subagent"@],
        ) {
            Some(subagent) => kind_in_subagent(subagent),
            None => None,
        },
        _ => None,
    }
}

fn kind_from(text: &str) -> (r: Option<String>)
    ensures
        crate::model::text_view(r) == named_kind(text@),
{
    let kind = normalize_subagent_kind(text);
    if kind.as_str().unicode_len() > 0 {
        Some(kind)
    } else {
        None
    }
}

fn only_kind_key(entries: &Vec<(String, Json)>, Ghost(all): Ghost<Seq<(Seq<char>, JsonView)>>) -> (r:
    Option<String>)
    requires
        all.len() == entries@.len(),
        forall|k: int| 0 <= k < all.len() ==> (#[trigger] all[k]).0 == entries@[k].0@,
    ensures
        crate::model::text_view(r) == if kind_keys(all).len() == 1 {
            Some(kind_keys(all)[0])
        } else {
            None
        },
{
    let mut keys: Vec<String> = Vec::new();
    let mut i: usize = 0;
    assert(text_views(keys@) =~= kind_keys(all.take(0)));
    while i < entries.len()
        invariant
            i <= entries@.len(),
            all.len() == entries@.len(),
            forall|k: int| 0 <= k < all.len() ==> (#[trigger] all[k]).0 == entries@[k].0@,
            text_views(keys@) == kind_keys(all.take(i as int)),
        decreases entries@.len() - i,
    {
        let key = entries[i].0.clone();
        proof {
            assert(all.take(i + 1).drop_last() =~= all.take(i as int));
            assert(all.take(i + 1).last() == all[i as int]);
            lemma_pushed_text(keys@, key);
        }
        let ghost held = text_views(keys@);
        if !same_text(key.as_str(), "thread_spawn") && !same_text(key.as_str(), "threadSpawn") {
            keys.push(key);
            assert(text_views(keys@) =~= held + seq![key@]);
        }
        assert(text_views(keys@) =~= kind_keys(all.take(i + 1)));
        i += 1;
    }
    assert(all.take(all.len() as int) =~= all);
    assert(text_views(keys@).len() == keys@.len());
    if keys.len() == 1 {
        assert(text_views(keys@)[0] == keys@[0]@);
        Some(keys[0].clone())
    } else {
        None
    }
}

fn kind_from_subagent(subagent: &Json) -> (r: Option<String>)
    ensures
        crate::model::text_view(r) == kind_in_subagent(subagent@),
{
    match subagent {
        Json::Text(s) => kind_from(s.as_str()),
        Json::Object(entries) => {
            let named = match field(subagent, "kind", "type") {
                Some(member) => Some(member),
                None => field(subagent, "name", "id"),
            };
            proof {
                reveal_with_fuel(first_member, 5);
                let names = seq!["kind"@, "type"@, "name"@, "id"@];
                assert(names.drop_first() =~= seq!["type"@, "name"@, "id"@]);
                assert(names.drop_first().drop_first() =~= seq!["name"@, "id"@]);
                assert(names.drop_first().drop_first().drop_first() =~= seq!["id"@]);
                assert(opt_view(named) == first_member(subagent@, names));
            }
            match text_in(named) {
                Some(s) => kind_from(s),
                None => match only_kind_key(entries, Ghost(subagent@->Object_0)) {
                    Some(key) => kind_from(key.as_str()),
                    None => None,
                },
            }
        },
        _ => None,
    }
}

/// The kind of subagent that a thread's source names.
pub fn source_subagent_kind(source: &Json) -> (r: Option<String>)
    ensures
        crate::model::text_view(r) == kind_of_source(source@),
{
    match source {
        Json::Text(s) => kind_from(s.as_str()),
        Json::Object(_) => {
            let subagent = match field(source, "subAgent", "sub_agent") {
                Some(member) => Some(member),
                None => source.get("subagent"),
            };
            proof {
                reveal_with_fuel(first_member, 4);
                let names = seq!["subAgent"@, "sub_agent"@, "subagent"@];
                assert(names.drop_first() =~= seq!["sub_agent"@, "subagent"@]);
                assert(names.drop_first().drop_first() =~= seq!["subagent"@]);
                assert(opt_view(subagent) == first_member(source@, names));
            }
            match subagent {
                Some(json) => kind_from_subagent(json),
                None => None,
            }
        },
        _ => None,
    }
}

/// The kind of the subagent that keeps memories.
pub const MEMORY_CONSOLIDATION: &'static str = "memory_consolidation";

/// Whether a thread with this source only consolidates memories.
pub open spec fn consolidates_memory(source: Option<JsonView>) -> bool {
    source matches Some(json) && kind_of_source(json) == Some(MEMORY_CONSOLIDATION@)
}

fn is_memory_source(source: Option<&Json>) -> (r: bool)
    ensures
        r == consolidates_memory(opt_view(source)),
{
    match source {
        Some(json) => match source_subagent_kind(json) {
            Some(kind) => same_text(kind.as_str(), MEMORY_CONSOLIDATION),
            None => false,
        },
        None => false,
    }
}

/// The source of the thread that a notification has started.
pub open spec fn started_source(message: JsonView) -> Option<JsonView> {
    match message.get("params"@) {
        Some(params) => match member_of(params.get("thread"@), "source"@) {
            Some(source) => Some(source),
            None => params.get("source"@),
        },
        None => None,
    }
}

/// Whether the thread that a notification has started only consolidates memories.
pub fn thread_started_is_memory_consolidation(value: &Json) -> (r: bool)
    ensures
        r == consolidates_memory(started_source(value@)),
{
    let source = match value.get("params") {
        Some(params) => match member_in(params.get("thread"), "source") {
            Some(source) => Some(source),
            None => params.get("source"),
        },
        None => None,
    };
    is_memory_source(source)
}

/// A thread of a thread list.
#[derive(Debug, PartialEq, Eq)]
pub struct ThreadListEntry {
    pub thread_id: String,
    pub cwd: Option<String>,
    pub is_memory_consolidation: bool,
}

/// What a thread of a thread list holds.
pub struct ThreadListView {
    pub thread_id: Seq<char>,
    pub cwd: Option<Seq<char>>,
    pub is_memory_consolidation: bool,
}

impl View for ThreadListEntry {
    type V = ThreadListView;

    open spec fn view(&self) -> ThreadListView {
        ThreadListView {
            thread_id: self.thread_id@,
            cwd: crate::model::text_view(self.cwd),
            is_memory_consolidation: self.is_memory_consolidation,
        }
    }
}

/// What the threads of a thread list hold.
pub open spec fn thread_list_views(entries: Seq<ThreadListEntry>) -> Seq<ThreadListView> {
    entries.map_values(|entry: ThreadListEntry| entry@)
}

/// The thread that an object of a thread list describes, where it has an id.
pub open spec fn listed_thread(object: JsonView) -> Option<ThreadListView> {
    let thread = object.get("thread"@);
    let cwd = match text_of(object.get("cwd"@)) {
        Some(text) => Some(text),
        None => text_of(member_of(thread, "cwd"@)),
    };
    let id = match text_of(
        match field_in(object, "threadId"@, "thread_id"@) {
            Some(member) => Some(member),
            None => object.get("id"@),
        },
    ) {
        Some(text) => Some(text),
        None => text_of(member_of(thread, "id"@)),
    };
    let source = match object.get("source"@) {
        Some(member) => Some(member),
        None => member_of(thread, "source"@),
    };
    match id {
        Some(thread_id) => Some(
            ThreadListView {
                thread_id,
                cwd,
                is_memory_consolidation: consolidates_memory(source),
            },
        ),
        None => None,
    }
}

/// The threads in a value: those of each item of an array; or the one that an object
/// describes, then those in the lists that it holds.
pub open spec fn listed_threads(value: JsonView) -> Seq<ThreadListView>
    decreases value, 1int,
{
    match value {
        JsonView::Array(items) => listed_in_all(items),
        JsonView::Object(_) => (match listed_thread(value) {
            Some(thread) => seq![thread],
            None => seq![],
        }) + listed_under(value, "threads"@) + listed_under(value, "items"@) + listed_under(
            value,
            "results"@,
        ) + listed_under(value, "data"@),
        _ => seq![],
    }
}

/// The threads in the list that an object holds under `key`.
pub open spec fn listed_under(value: JsonView, key: Seq<char>) -> Seq<ThreadListView>
    decreases value, 0int,
    via listed_under_terminates
{
    match value.get(key) {
        Some(JsonView::Array(items)) => listed_in_all(items),
        _ => seq![],
    }
}

#[via_fn]
proof fn listed_under_terminates(value: JsonView, key: Seq<char>) {
    lemma_member_is_smaller(value, key);
    if let Some(JsonView::Array(items)) = value.get(key) {
        assert(decreases_to!(value.get(key)->0 => value.get(key)->0->Array_0));
    }
}

/// The threads in each of the values, in order.
pub open spec fn listed_in_all(items: Seq<JsonView>) -> Seq<ThreadListView>
    decreases items, 0int,
{
    if items.len() == 0 {
        seq![]
    } else {
        listed_in_all(items.drop_last()) + listed_threads(items.last())
    }
}

fn describe_thread(object: &Json) -> (r: Option<ThreadListEntry>)
    ensures
        match r {
            Some(entry) => listed_thread(object@) == Some(entry@),
            None => listed_thread(object@) is None,
        },
{
    let thread = object.get("thread");
    let cwd = match text_in(object.get("cwd")) {
        Some(text) => Some(text),
        None => text_in(member_in(thread, "cwd")),
    };
    let named = match field(object, "threadId", "thread_id") {
        Some(member) => Some(member),
        None => object.get("id"),
    };
    let id = match text_in(named) {
        Some(text) => Some(text),
        None => text_in(member_in(thread, "id")),
    };
    match id {
        Some(thread_id) => {
            let source = match object.get("source") {
                Some(member) => Some(member),
                None => member_in(thread, "source"),
            };
            Some(
                ThreadListEntry {
                    thread_id: thread_id.to_owned(),
                    cwd: match cwd {
                        Some(text) => Some(text.to_owned()),
                        None => None,
                    },
                    is_memory_consolidation: is_memory_source(source),
                },
            )
        },
        None => None,
    }
}

fn collect_all(items: &Vec<Json>, out: &mut Vec<ThreadListEntry>)
    ensures
        thread_list_views(final(out)@) == thread_list_views(old(out)@) + listed_in_all(
            views(items@),
        ),
    decreases views(items@), 0int,
{
    let ghost all = views(items@);
    let ghost before = thread_list_views(out@);
    let mut i: usize = 0;
    assert(thread_list_views(out@) =~= before + listed_in_all(all.take(0)));
    while i < items.len()
        invariant
            i <= items@.len(),
            all == views(items@),
            thread_list_views(out@) == before + listed_in_all(all.take(i as int)),
        decreases items@.len() - i,
    {
        assert(all[i as int] == items@[i as int]@);
        assert(decreases_to!(all => all[i as int]));
        collect_entries(&items[i], out);
        proof {
            assert(all.take(i + 1).drop_last() =~= all.take(i as int));
            assert(thread_list_views(out@) =~= before + listed_in_all(all.take(i + 1)));
        }
        i += 1;
    }
    assert(all.take(all.len() as int) =~= all);
}

fn collect_under(object: &Json, key: &str, out: &mut Vec<ThreadListEntry>)
    ensures
        thread_list_views(final(out)@) == thread_list_views(old(out)@) + listed_under(
            object@,
            key@,
        ),
    decreases object@, 0int,
{
    let ghost before = thread_list_views(out@);
    if let Some(member) = object.get(key) {
        proof {
            lemma_member_is_smaller(object@, key@);
        }
        if let Some(items) = member.as_array() {
            assert(decreases_to!(member@ => member@->Array_0));
            collect_all(items, out);
            return ;
        }
    }
    assert(thread_list_views(out@) =~= before + listed_under(object@, key@));
}

fn collect_entries(input: &Json, out: &mut Vec<ThreadListEntry>)
    ensures
        thread_list_views(final(out)@) == thread_list_views(old(out)@) + listed_threads(input@),
    decreases input@, 1int,
{
    let ghost before = thread_list_views(out@);
    match input {
        Json::Array(items) => {
            assert(input@->Array_0 =~= views(items@));
            assert(decreases_to!(input@ => input@->Array_0));
            collect_all(items, out);
        },
        Json::Object(_) => {
            let ghost mut found: Seq<ThreadListView> = match listed_thread(input@) {
                Some(thread) => seq![thread],
                None => seq![],
            };
            if let Some(entry) = describe_thread(input) {
                let ghost held = out@;
                out.push(entry);
                assert(thread_list_views(out@) =~= thread_list_views(held).push(entry@));
            }
            assert(thread_list_views(out@) =~= before + found);
            collect_under(input, "threads", out);
            proof {
                let more = listed_under(input@, "threads"@);
                assert(before + found + more =~= before + (found + more));
                found = found + more;
            }
            collect_under(input, "items", out);
            proof {
                let more = listed_under(input@, "items"@);
                assert(before + found + more =~= before + (found + more));
                found = found + more;
            }
            collect_under(input, "results", out);
            proof {
                let more = listed_under(input@, "results"@);
                assert(before + found + more =~= before + (found + more));
                found = found + more;
            }
            collect_under(input, "data", out);
            proof {
                let more = listed_under(input@, "data"@);
                assert(before + found + more =~= before + (found + more));
            }
        },
        _ => {
            assert(thread_list_views(out@) =~= before + listed_threads(input@));
        },
    }
}

/// The threads that the response to a thread list holds.
pub fn extract_thread_entries_from_thread_list_result(value: &Json) -> (r: Vec<ThreadListEntry>)
    ensures
        thread_list_views(r@) == match value@.get("result"@) {
            Some(result) => listed_threads(result),
            None => seq![],
        },
{
    let mut out: Vec<ThreadListEntry> = Vec::new();
    if let Some(result) = value.get("result") {
        collect_entries(result, &mut out);
    }
    assert(thread_list_views(out@) =~= match value@.get("result"@) {
        Some(result) => listed_threads(result),
        None => seq![],
    });
    out
}

/// Whether a message about a hidden thread is kept back. Responses and the messages that say
/// what became of the thread are not.
pub open spec fn suppressed_when_hidden(method: Option<Seq<char>>, has_result_or_error: bool) -> bool {
    !has_result_or_error && method != Some("thread/archived"@) && method != Some(
        "codex/backgroundThread"@,
    )
}

/// Whether a message about a hidden thread is kept back.
pub fn should_suppress_hidden_thread_event(
    method_name: Option<&str>,
    has_result_or_error: bool,
) -> (r: bool)
    ensures
        r == suppressed_when_hidden(
            match method_name {
                Some(name) => Some(name@),
                None => None,
            },
            has_result_or_error,
        ),
{
    if has_result_or_error {
        return false;
    }
    match method_name {
        Some(name) => !(same_text(name, "thread/archived") || same_text(
            name,
            "codex/backgroundThread",
        )),
        None => true,
    }
}

/// Whether a notification concerns every workspace.
pub open spec fn concerns_every_workspace(method: Seq<char>) -> bool {
    method == "account/updated"@ || method == "account/rateLimits/updated"@ || method
        == "account/login/completed"@
}

/// Whether a notification concerns every workspace.
pub fn is_global_workspace_notification(method: &str) -> (r: bool)
    ensures
        r == concerns_every_workspace(method@),
{
    same_text(method, "account/updated") || same_text(method, "account/rateLimits/updated")
        || same_text(method, "account/login/completed")
}

/// Whether a message goes to every workspace: it concerns them all, and names neither a thread
/// nor a request.
pub fn should_broadcast_global_workspace_notification(
    method_name: Option<&str>,
    thread_id: Option<&String>,
    request_workspace: Option<&str>,
) -> (r: bool)
    ensures
        r == (method_name matches Some(name) && concerns_every_workspace(name@) && thread_id is None
            && request_workspace is None),
{
    match method_name {
        Some(name) => is_global_workspace_notification(name) && thread_id.is_none()
            && request_workspace.is_none(),
        None => false,
    }
}

/// Related threads are named once each.
pub proof fn related_threads_are_distinct(message: JsonView)
    ensures
        related_threads(message).no_duplicates(),
{
    lemma_distinct(
        container_ids_of(message.get("params"@)) + container_ids_of(message.get("result"@))
            + container_ids(message),
    );
}

/// `distinct` keeps every id, and each once.
proof fn lemma_distinct(ids: Seq<Seq<char>>)
    ensures
        distinct(ids).no_duplicates(),
        forall|id: Seq<char>| #[trigger] distinct(ids).contains(id) <==> ids.contains(id),
    decreases ids.len(),
{
    if ids.len() > 0 {
        let rest = distinct(ids.drop_last());
        lemma_distinct(ids.drop_last());
        assert forall|id: Seq<char>| #[trigger] distinct(ids).contains(id) <==> ids.contains(
            id,
        ) by {
            if distinct(ids).contains(id) {
                if rest.contains(id) {
                    let k = choose|k: int| 0 <= k < ids.drop_last().len() && ids.drop_last()[k] == id;
                    assert(ids[k] == id);
                } else {
                    assert(ids[ids.len() - 1] == id);
                }
            }
            if ids.contains(id) {
                let k = choose|k: int| 0 <= k < ids.len() && ids[k] == id;
                if k < ids.len() - 1 {
                    assert(ids.drop_last()[k] == id);
                    assert(rest.contains(id));
                    let m = choose|m: int| 0 <= m < rest.len() && rest[m] == id;
                    assert(distinct(ids)[m] == id);
                } else if rest.contains(id) {
                    let m = choose|m: int| 0 <= m < rest.len() && rest[m] == id;
                    assert(distinct(ids)[m] == id);
                } else {
                    assert(distinct(ids)[rest.len() as int] == id);
                }
            }
        }
    }
}

/// A response reaches its requester, whether or not its thread is hidden.
pub proof fn responses_are_never_suppressed(method: Option<Seq<char>>)
    ensures
        !suppressed_when_hidden(method, true),
{
}

} // verus!
