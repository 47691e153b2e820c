//! The messages that are written to an app server and shown of it.

use crate::json::{json_in, json_view, Json, JsonNumber, JsonView};
use crate::routing::{pair_document, text_document};
use crate::text::{trim_text, trimmed};
use crate::json_order::{
    an_ordered_document_is_resembled_alike, in_order, ordered, ordering_keeps_what_can_be_written,
    ordering_nests_no_deeper,
};
use crate::json_text::{
    fits, nests, resembles, same_content, what_resembles_a_fitting_one_has_its_content, writable,
    write_json, written, written_documents_are_resembled, UNWRITABLE_NUMBER,
};
use vstd::prelude::*;
use vstd::string::*;

verus! {

/// A document that holds one member.
pub fn single_document(key: &str, value: Json) -> (r: Json)
    ensures
        r@ == JsonView::Object(seq![(key@, value@)]),
{
    let mut entries: Vec<(String, Json)> = Vec::new();
    entries.push((key.to_owned(), value));
    assert(json_view(Json::Object(entries))->Object_0 =~= seq![(key@, value@)]);
    Json::Object(entries)
}

/// A document that holds three members.
pub fn triple_document(
    first: &str,
    left: Json,
    second: &str,
    middle: Json,
    third: &str,
    right: Json,
) -> (r: Json)
    ensures
        r@ == JsonView::Object(seq![(first@, left@), (second@, middle@), (third@, right@)]),
{
    let mut entries: Vec<(String, Json)> = Vec::new();
    entries.push((first.to_owned(), left));
    entries.push((second.to_owned(), middle));
    entries.push((third.to_owned(), right));
    assert(json_view(Json::Object(entries))->Object_0 =~= seq![
        (first@, left@),
        (second@, middle@),
        (third@, right@),
    ]);
    Json::Object(entries)
}

/// A notification of the limiter's own: a method and one parameter.
pub open spec fn notice(method: Seq<char>, params: JsonView) -> JsonView {
    JsonView::Object(seq![("method"@, JsonView::Text(method)), ("params"@, params)])
}

/// What is said to a server first.
pub open spec fn initialize_params(client_version: Seq<char>) -> JsonView {
    JsonView::Object(
        seq![
            (
                "capabilities"@,
                JsonView::Object(seq![("experimentalApi"@, JsonView::Bool(true))]),
            ),
            (
                "clientInfo"@,
                JsonView::Object(
                    seq![
                        ("name"@, JsonView::Text("codex_monitor"@)),
                        ("title"@, JsonView::Text("Codex Quota Guard"@)),
                        ("version"@, JsonView::Text(client_version)),
                    ],
                ),
            ),
        ],
    )
}

/// What is said to a server first.
pub fn build_initialize_params(client_version: &str) -> (r: Json)
    ensures
        r@ == initialize_params(client_version@),
{
    pair_document(
        "capabilities",
        single_document("experimentalApi", Json::Bool(true)),
        "clientInfo",
        triple_document(
            "name",
            text_document("codex_monitor"),
            "title",
            text_document("Codex Quota Guard"),
            "version",
            text_document(client_version),
        ),
    )
}

/// A request.
pub fn request_message(request_id: u64, method: &str, params: Json) -> (r: Json)
    ensures
        r@ == JsonView::Object(
            seq![
                ("id"@, JsonView::Unsigned(request_id)),
                ("method"@, JsonView::Text(method@)),
                ("params"@, params@),
            ],
        ),
{
    triple_document(
        "id",
        Json::Number(JsonNumber::Unsigned(request_id)),
        "method",
        text_document(method),
        "params",
        params,
    )
}

/// A notification, with parameters or without.
pub fn notification_message(method: &str, params: Option<Json>) -> (r: Json)
    ensures
        r@ == match params {
            Some(value) => notice(method@, value@),
            None => JsonView::Object(seq![("method"@, JsonView::Text(method@))]),
        },
{
    match params {
        Some(value) => pair_document("method", text_document(method), "params", value),
        None => single_document("method", text_document(method)),
    }
}

/// The answer to a request of the server's.
pub fn response_message(id: Json, result: Json) -> (r: Json)
    ensures
        r@ == JsonView::Object(seq![("id"@, id@), ("result"@, result@)]),
{
    pair_document("id", id, "result", result)
}

/// What is shown of a line that holds no document.
pub open spec fn parse_error_notice(error: Seq<char>, line: Seq<char>) -> JsonView {
    notice(
        "codex/parseError"@,
        JsonView::Object(
            seq![("error"@, JsonView::Text(error)), ("raw"@, JsonView::Text(line))],
        ),
    )
}

/// What is shown of a line that holds no document.
pub fn parse_error_message(error: &str, line: &str) -> (r: Json)
    ensures
        r@ == parse_error_notice(error@, line@),
{
    pair_document(
        "method",
        text_document("codex/parseError"),
        "params",
        pair_document("error", text_document(error), "raw", text_document(line)),
    )
}

/// What is shown of a line that a server writes beside its messages; nothing of a blank one.
pub fn stderr_message(line: &str) -> (r: Option<Json>)
    ensures
        match r {
            Some(message) => trimmed(line@).len() > 0 && message@ == notice(
                "codex/stderr"@,
                JsonView::Object(seq![("message"@, JsonView::Text(line@))]),
            ),
            None => trimmed(line@).len() == 0,
        },
{
    if trim_text(line).as_str().unicode_len() == 0 {
        return None;
    }
    Some(
        pair_document(
            "method",
            text_document("codex/stderr"),
            "params",
            single_document("message", text_document(line)),
        ),
    )
}

/// What is shown when a server is ready.
pub fn connected_message(workspace_id: &str) -> (r: Json)
    ensures
        r@ == notice(
            "codex/connected"@,
            JsonView::Object(seq![("workspaceId"@, JsonView::Text(workspace_id@))]),
        ),
{
    pair_document(
        "method",
        text_document("codex/connected"),
        "params",
        single_document("workspaceId", text_document(workspace_id)),
    )
}

/// What came of the first request to a server.
#[derive(Debug, PartialEq, Eq)]
pub enum InitializeOutcome {
    Answered,
    Failed { error: String },
    TimedOut,
}

/// Why a server cannot be used, and whether it is to be ended.
#[derive(Debug, PartialEq, Eq)]
pub struct StartupFailure {
    pub message: String,
    pub end_server: bool,
}

/// What a server that stays silent is reported as.
pub const INITIALIZE_TIMED_OUT: &'static str = "Codex app-server did not respond to initialize. Check that `codex app-server` works in Terminal.";

/// Decides whether a server can be used. One that stays silent is ended.
pub fn startup_failure(outcome: InitializeOutcome) -> (r: Option<StartupFailure>)
    ensures
        match outcome {
            InitializeOutcome::Answered => r is None,
            InitializeOutcome::Failed { error } => r == Some(
                StartupFailure { message: error, end_server: false },
            ),
            InitializeOutcome::TimedOut => r is Some && r->0.message@ == INITIALIZE_TIMED_OUT@
                && r->0.end_server,
        },
{
    match outcome {
        InitializeOutcome::Answered => None,
        InitializeOutcome::Failed { error } => Some(
            StartupFailure { message: error, end_server: false },
        ),
        InitializeOutcome::TimedOut => Some(
            StartupFailure { message: INITIALIZE_TIMED_OUT.to_owned(), end_server: true },
        ),
    }
}

/// Whether the line is the text of the document, with the members of each object in the order of
/// their names, and an end of line.
pub open spec fn line_of(message: JsonView, line: Seq<char>) -> bool {
    &&& line.len() > 0
    &&& line.last() == '\n'
    &&& written(ordered(message), line.drop_last(), false)
}

/// The line that a message is sent as.
pub fn message_line(message: &Json) -> (r: Result<String, String>)
    ensures
        r is Ok <==> writable(message@),
        r matches Ok(line) ==> line_of(message@, line@),
        r matches Err(error) ==> error@ == UNWRITABLE_NUMBER@,
{
    proof {
        ordering_keeps_what_can_be_written(message@);
    }
    match write_json(&in_order(message)) {
        Ok(mut line) => {
            let ghost text = line@;
            line.push('\n');
            assert(line@.drop_last() =~= text);
            Ok(line)
        },
        Err(error) => Err(error),
    }
}

/// A line that is sent is read by the other side, without its end, as a message of the same
/// content, but that a number which is no whole one of 64 bits may have become some other number.
pub proof fn sent_messages_arrive(message: JsonView, line: Seq<char>)
    requires
        line_of(message, line),
        nests(message, 127),
    ensures
        json_in(line.drop_last()) matches Ok(read) && resembles(message, read) && (fits(
            message,
            127,
        ) ==> same_content(message, read)),
{
    let text = line.drop_last();
    ordering_nests_no_deeper(message, 127);
    written_documents_are_resembled(ordered(message), text, false);
    let read = json_in(text)->Ok_0;
    an_ordered_document_is_resembled_alike(message, read);
    if fits(message, 127) {
        what_resembles_a_fitting_one_has_its_content(message, read, 127);
    }
}

} // verus!
