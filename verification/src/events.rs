//! What sessions report to the limiter.

use crate::json::{Json, JsonView};
use crate::model::{document_view, text_view};
use vstd::prelude::*;

verus! {

/// Something that a session has seen.
#[derive(Debug, PartialEq)]
pub enum QuotaGuardEvent {
    WorkspaceBound { session_epoch: String, workspace_id: String, canonical_codex_home: String },
    WorkspaceDisconnected { session_epoch: String, workspace_id: String },
    RateLimits { session_epoch: String, workspace_id: String, value: Json },
    TurnStarted { session_epoch: String, workspace_id: String, thread_id: String, turn_id: String },
    TurnCompleted {
        session_epoch: String,
        workspace_id: String,
        thread_id: String,
        turn_id: String,
        status: String,
        error: Option<Json>,
    },
    AccountIdentityChanged { session_epoch: String, workspace_id: String, reason: String },
    PendingLocalStart {
        request_id: u64,
        session_epoch: String,
        workspace_id: String,
        request_thread_id: Option<String>,
        expected_thread_id: Option<String>,
        request_kind: String,
    },
    StartResponse {
        request_id: u64,
        session_epoch: String,
        workspace_id: String,
        method: String,
        value: Json,
    },
    StartFailed { request_id: u64, session_epoch: String, workspace_id: String, reason: String },
}

/// What an event holds.
pub enum EventView {
    WorkspaceBound {
        session_epoch: Seq<char>,
        workspace_id: Seq<char>,
        canonical_codex_home: Seq<char>,
    },
    WorkspaceDisconnected { session_epoch: Seq<char>, workspace_id: Seq<char> },
    RateLimits { session_epoch: Seq<char>, workspace_id: Seq<char>, value: JsonView },
    TurnStarted {
        session_epoch: Seq<char>,
        workspace_id: Seq<char>,
        thread_id: Seq<char>,
        turn_id: Seq<char>,
    },
    TurnCompleted {
        session_epoch: Seq<char>,
        workspace_id: Seq<char>,
        thread_id: Seq<char>,
        turn_id: Seq<char>,
        status: Seq<char>,
        error: Option<JsonView>,
    },
    AccountIdentityChanged {
        session_epoch: Seq<char>,
        workspace_id: Seq<char>,
        reason: Seq<char>,
    },
    PendingLocalStart {
        request_id: u64,
        session_epoch: Seq<char>,
        workspace_id: Seq<char>,
        request_thread_id: Option<Seq<char>>,
        expected_thread_id: Option<Seq<char>>,
        request_kind: Seq<char>,
    },
    StartResponse {
        request_id: u64,
        session_epoch: Seq<char>,
        workspace_id: Seq<char>,
        method: Seq<char>,
        value: JsonView,
    },
    StartFailed {
        request_id: u64,
        session_epoch: Seq<char>,
        workspace_id: Seq<char>,
        reason: Seq<char>,
    },
}

impl View for QuotaGuardEvent {
    type V = EventView;

    open spec fn view(&self) -> EventView {
        match *self {
            QuotaGuardEvent::WorkspaceBound { session_epoch, workspace_id, canonical_codex_home } => {
                EventView::WorkspaceBound {
                    session_epoch: session_epoch@,
                    workspace_id: workspace_id@,
                    canonical_codex_home: canonical_codex_home@,
                }
            },
            QuotaGuardEvent::WorkspaceDisconnected { session_epoch, workspace_id } => {
                EventView::WorkspaceDisconnected {
                    session_epoch: session_epoch@,
                    workspace_id: workspace_id@,
                }
            },
            QuotaGuardEvent::RateLimits { session_epoch, workspace_id, value } => {
                EventView::RateLimits {
                    session_epoch: session_epoch@,
                    workspace_id: workspace_id@,
                    value: value@,
                }
            },
            QuotaGuardEvent::TurnStarted { session_epoch, workspace_id, thread_id, turn_id } => {
                EventView::TurnStarted {
                    session_epoch: session_epoch@,
                    workspace_id: workspace_id@,
                    thread_id: thread_id@,
                    turn_id: turn_id@,
                }
            },
            QuotaGuardEvent::TurnCompleted {
                session_epoch,
                workspace_id,
                thread_id,
                turn_id,
                status,
                error,
            } => EventView::TurnCompleted {
                session_epoch: session_epoch@,
                workspace_id: workspace_id@,
                thread_id: thread_id@,
                turn_id: turn_id@,
                status: status@,
                error: document_view(error),
            },
            QuotaGuardEvent::AccountIdentityChanged { session_epoch, workspace_id, reason } => {
                EventView::AccountIdentityChanged {
                    session_epoch: session_epoch@,
                    workspace_id: workspace_id@,
                    reason: reason@,
                }
            },
            QuotaGuardEvent::PendingLocalStart {
                request_id,
                session_epoch,
                workspace_id,
                request_thread_id,
                expected_thread_id,
                request_kind,
            } => EventView::PendingLocalStart {
                request_id,
                session_epoch: session_epoch@,
                workspace_id: workspace_id@,
                request_thread_id: text_view(request_thread_id),
                expected_thread_id: text_view(expected_thread_id),
                request_kind: request_kind@,
            },
            QuotaGuardEvent::StartResponse {
                request_id,
                session_epoch,
                workspace_id,
                method,
                value,
            } => EventView::StartResponse {
                request_id,
                session_epoch: session_epoch@,
                workspace_id: workspace_id@,
                method: method@,
                value: value@,
            },
            QuotaGuardEvent::StartFailed { request_id, session_epoch, workspace_id, reason } => {
                EventView::StartFailed {
                    request_id,
                    session_epoch: session_epoch@,
                    workspace_id: workspace_id@,
                    reason: reason@,
                }
            },
        }
    }
}

} // verus!
