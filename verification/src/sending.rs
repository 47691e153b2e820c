//! The way of a request to a server and of its answer back: what came of each action comes in,
//! and what is to be done next comes out.

use crate::events::{EventView, QuotaGuardEvent};
use crate::gate::{GateView, ProcessGate};
use crate::json::{Json, JsonView};
use crate::model::text_view;
use crate::request::{
    after_release, asked_start, asks_for_inference, begin_request, blocked_error, counts,
    start_view, with_request, without_permit, OutgoingRequest, NOT_BOUND,
};
use crate::session::{SessionState, SessionView};
use vstd::prelude::*;
use vstd::string::*;

verus! {

/// What has to be done next for a request. Its outcome is handed back.
#[derive(Debug, PartialEq)]
pub enum SendAction {
    /// The start is to be recorded, and acknowledged as kept.
    Record { event: QuotaGuardEvent },
    /// The message is to be written.
    Write { message: Json },
    /// The answer is to be waited for.
    Wait,
    /// The failure of the start is to be recorded.
    RecordFailure { event: QuotaGuardEvent },
    /// The request was answered.
    Done,
    /// The request has failed.
    Failed { message: String },
}

/// How far a request is.
#[derive(Debug, PartialEq, Eq)]
pub enum SendStage {
    /// Its start is being recorded.
    Recording,
    /// It is being written.
    Writing,
    /// Its answer is being waited for.
    Waiting,
    /// The failure of its start is being recorded.
    RecordingFailure { reason: String },
    /// It has ended.
    Ended,
}

/// A request on its way.
pub struct Sending {
    pub request: OutgoingRequest,
    pub stage: SendStage,
}

/// The report of the start that a request asks for.
pub open spec fn start_report(request: OutgoingRequest, session: SessionView) -> EventView
    recommends
        request.start is Some,
{
    EventView::PendingLocalStart {
        request_id: request.start->0.request_id,
        session_epoch: session.session_epoch,
        workspace_id: request.workspace_id@,
        request_thread_id: text_view(request.start->0.request_thread_id),
        expected_thread_id: text_view(request.start->0.expected_thread_id),
        request_kind: request.start->0.request_kind@,
    }
}

/// The report that the start which a request asked for has failed.
pub open spec fn failure_report(
    request: OutgoingRequest,
    session: SessionView,
    reason: Seq<char>,
) -> EventView
    recommends
        request.start is Some,
{
    EventView::StartFailed {
        request_id: request.start->0.request_id,
        session_epoch: session.session_epoch,
        workspace_id: request.workspace_id@,
        reason,
    }
}

/// The message of a request.
pub open spec fn message_of(request: OutgoingRequest) -> JsonView {
    JsonView::Object(
        seq![
            ("id"@, JsonView::Unsigned(request.request_id)),
            ("method"@, JsonView::Text(request.method@)),
            ("params"@, request.params@),
        ],
    )
}

/// A request on its way, with the session and the process gate that it concerns.
#[verifier::ext_equal]
pub struct SendView {
    pub request: OutgoingRequest,
    pub session: SessionView,
    pub gate: GateView,
}

/// The request that no longer counts as one under way.
pub open spec fn uncounted(request: OutgoingRequest) -> OutgoingRequest {
    OutgoingRequest { admission: None, ..request }
}

/// Whether the request is given up for this reason: the session no longer waits for it, and the
/// failure of its start is recorded; where it asked for none, it has failed.
pub open spec fn gives_up(
    before: SendView,
    reason: Seq<char>,
    stage: SendStage,
    after: SendView,
    action: SendAction,
) -> bool {
    let left = SessionView {
        request_context: before.session.request_context.remove(before.request.request_id),
        ..before.session
    };
    if before.request.start is Some {
        &&& after == (SendView { session: left, ..before })
        &&& stage matches SendStage::RecordingFailure { reason: kept } && kept@ == reason
        &&& action matches SendAction::RecordFailure { event } && event@ == failure_report(
            before.request,
            before.session,
            reason,
        )
    } else {
        &&& after == (SendView {
            request: uncounted(before.request),
            session: left,
            gate: after_release(before.gate, before.request.admission),
        })
        &&& stage == SendStage::Ended
        &&& action matches SendAction::Failed { message } && message@ == reason
    }
}

/// Whether the session now waits for the answer, and the message is to be written.
pub open spec fn is_registered(
    before: SendView,
    stage: SendStage,
    after: SendView,
    action: SendAction,
) -> bool {
    &&& after == (SendView { session: with_request(before.session, before.request), ..before })
    &&& stage == SendStage::Writing
    &&& action matches SendAction::Write { message } && message@ == message_of(before.request)
}

/// Whether a step leads from one stage to another, with this action. `outcome` is what came of
/// the last action.
pub open spec fn sends(
    stage: SendStage,
    before: SendView,
    outcome: Result<(), String>,
    next: SendStage,
    after: SendView,
    action: SendAction,
) -> bool {
    match (stage, outcome) {
        (SendStage::Recording, Ok(())) => is_registered(before, next, after, action),
        (SendStage::Recording, Err(error)) => {
            &&& after == (SendView {
                request: uncounted(before.request),
                gate: after_release(
                    without_permit(
                        before.gate,
                        before.session.session_epoch,
                        before.request.workspace_id@,
                    ),
                    before.request.admission,
                ),
                ..before
            })
            &&& next == SendStage::Ended
            &&& action matches SendAction::Failed { message } && message@
                == "quota guard could not persist pending local start: "@ + error@
        },
        (SendStage::Writing, Ok(())) => {
            &&& after == (SendView {
                request: uncounted(before.request),
                gate: after_release(before.gate, before.request.admission),
                ..before
            })
            &&& next == SendStage::Waiting
            &&& action == SendAction::Wait
        },
        (SendStage::Writing, Err(reason)) => gives_up(before, reason@, next, after, action),
        (SendStage::Waiting, Ok(())) => after == before && next == SendStage::Ended && action
            == SendAction::Done,
        (SendStage::Waiting, Err(reason)) => gives_up(before, reason@, next, after, action),
        (SendStage::RecordingFailure { reason }, Ok(())) => {
            &&& after == (SendView {
                request: uncounted(before.request),
                gate: after_release(before.gate, before.request.admission),
                ..before
            })
            &&& next == SendStage::Ended
            &&& action matches SendAction::Failed { message } && message@ == reason@
        },
        (SendStage::RecordingFailure { reason }, Err(error)) => {
            &&& after == (SendView {
                request: uncounted(before.request),
                gate: after_release(
                    without_permit(
                        before.gate,
                        before.session.session_epoch,
                        before.request.workspace_id@,
                    ),
                    before.request.admission,
                ),
                ..before
            })
            &&& next == SendStage::Ended
            &&& action matches SendAction::Failed { message } && message@ == reason@
                + "; quota guard could not persist failed local start: "@ + error@
        },
        (SendStage::Ended, _) => after == before && next == SendStage::Ended && action
            == SendAction::Done,
    }
}

/// Whether the request that asks for this is on its way: its start is recorded first, where it
/// asks for one, and its message is written otherwise. `admitted` is the process gate that counts
/// it, where it asks for inference.
pub open spec fn sets_out(
    session: SessionView,
    admitted: GateView,
    sending: Sending,
    after: SendView,
    action: SendAction,
) -> bool {
    let before = SendView { request: sending.request, session, gate: admitted };
    if sending.request.start is Some {
        &&& after == before
        &&& sending.stage == SendStage::Recording
        &&& action matches SendAction::Record { event } && event@ == start_report(
            sending.request,
            session,
        )
    } else {
        is_registered(before, sending.stage, after, action)
    }
}

impl Sending {
    /// Begins a request. It is refused where its workspace is not bound, unless that is allowed,
    /// and, where it asks for inference, where the process gate does not admit it.
    pub fn begin(
        session: &mut SessionState,
        gate: &mut ProcessGate,
        request_id: u64,
        workspace_id: &str,
        method: &str,
        params: Json,
        allow_unbound: bool,
    ) -> (r: Result<(Sending, SendAction), String>)
        ensures
            ({
                let bound = allow_unbound || old(session)@.bound_workspace_ids.contains(
                    workspace_id@,
                );
                let inference = asks_for_inference(method@);
                let status = old(gate)@.status(Some(old(session)@.session_epoch), workspace_id@);
                match r {
                    Ok((sending, action)) => {
                        &&& bound
                        &&& inference ==> status.open
                        &&& sending.request.request_id == request_id
                        &&& sending.request.workspace_id@ == workspace_id@
                        &&& sending.request.method@ == method@
                        &&& sending.request.params == params
                        &&& start_view(sending.request.start) == asked_start(
                            request_id,
                            method@,
                            params@,
                        )
                        &&& counts(sending.request.admission) == inference
                        &&& sets_out(
                            old(session)@,
                            if inference { old(gate)@.admitted() } else { old(gate)@ },
                            sending,
                            SendView {
                                request: sending.request,
                                session: final(session)@,
                                gate: final(gate)@,
                            },
                            action,
                        )
                    },
                    Err(message) => {
                        &&& final(session)@ == old(session)@
                        &&& final(gate)@ == old(gate)@
                        &&& !bound || (inference && !status.open)
                        &&& message@ == if !bound { NOT_BOUND@ } else { blocked_error(status) }
                    },
                }
            }),
    {
        let mut request = match begin_request(
            session,
            gate,
            request_id,
            workspace_id,
            method,
            params,
            allow_unbound,
        ) {
            Ok(request) => request,
            Err(message) => {
                return Err(message);
            },
        };
        match request.start_event(session) {
            Some(event) => Ok(
                (Sending { request, stage: SendStage::Recording }, SendAction::Record { event }),
            ),
            None => {
                let _ = request.start_recorded(session, gate, Ok(()));
                let message = request.message();
                Ok((Sending { request, stage: SendStage::Writing }, SendAction::Write { message }))
            },
        }
    }

    fn give_up(&mut self, session: &mut SessionState, gate: &mut ProcessGate, reason: String) -> (
        action: SendAction)
        ensures
            gives_up(
                SendView {
                    request: old(self).request,
                    session: old(session)@,
                    gate: old(gate)@,
                },
                reason@,
                final(self).stage,
                SendView {
                    request: final(self).request,
                    session: final(session)@,
                    gate: final(gate)@,
                },
                action,
            ),
    {
        match self.request.give_up(session, reason.as_str()) {
            Some(event) => {
                self.stage = SendStage::RecordingFailure { reason };
                SendAction::RecordFailure { event }
            },
            None => {
                self.stage = SendStage::Ended;
                let message = self.request.failed(session, gate, reason.as_str(), Ok(()));
                SendAction::Failed { message }
            },
        }
    }

    /// Goes on once the last action is done, or could not be.
    pub fn step(
        &mut self,
        session: &mut SessionState,
        gate: &mut ProcessGate,
        outcome: Result<(), String>,
    ) -> (action: SendAction)
        ensures
            sends(
                old(self).stage,
                SendView {
                    request: old(self).request,
                    session: old(session)@,
                    gate: old(gate)@,
                },
                outcome,
                final(self).stage,
                SendView {
                    request: final(self).request,
                    session: final(session)@,
                    gate: final(gate)@,
                },
                action,
            ),
    {
        let mut stage = SendStage::Ended;
        std::mem::swap(&mut stage, &mut self.stage);
        match stage {
            SendStage::Recording => match self.request.start_recorded(session, gate, outcome) {
                Ok(()) => {
                    self.stage = SendStage::Writing;
                    SendAction::Write { message: self.request.message() }
                },
                Err(message) => SendAction::Failed { message },
            },
            SendStage::Writing => match outcome {
                Ok(()) => {
                    self.request.written(gate);
                    self.stage = SendStage::Waiting;
                    SendAction::Wait
                },
                Err(reason) => self.give_up(session, gate, reason),
            },
            SendStage::Waiting => match outcome {
                Ok(()) => SendAction::Done,
                Err(reason) => self.give_up(session, gate, reason),
            },
            SendStage::RecordingFailure { reason } => {
                let message = self.request.failed(session, gate, reason.as_str(), outcome);
                SendAction::Failed { message }
            },
            SendStage::Ended => SendAction::Done,
        }
    }

    /// Ends the request wherever it stands, where nobody waits for it any more: it no longer
    /// counts as one under way.
    pub fn abandon(&mut self, gate: &mut ProcessGate)
        ensures
            final(gate)@ == after_release(old(gate)@, old(self).request.admission),
            *final(self) == (Sending {
                request: uncounted(old(self).request),
                stage: SendStage::Ended,
            }),
    {
        self.request.written(gate);
        self.stage = SendStage::Ended;
    }
}

/// A request that asks for a start is written only once the start is recorded: the message comes
/// out of the beginning where there is no start, and otherwise only of the recording, where it
/// has succeeded.
pub proof fn a_start_is_recorded_before_it_is_written(
    stage: SendStage,
    before: SendView,
    outcome: Result<(), String>,
    next: SendStage,
    after: SendView,
    action: SendAction,
)
    requires
        sends(stage, before, outcome, next, after, action),
        action is Write,
    ensures
        stage == SendStage::Recording,
        outcome is Ok,
        after.session.request_context.dom().contains(before.request.request_id),
{
}

/// A request that asks for a start sets out with recording it.
pub proof fn a_start_sets_out_with_its_record(
    session: SessionView,
    admitted: GateView,
    sending: Sending,
    after: SendView,
    action: SendAction,
)
    requires
        sets_out(session, admitted, sending, after, action),
        sending.request.start is Some,
    ensures
        action is Record,
        sending.stage == SendStage::Recording,
        after.session == session,
{
}

/// A request that has ended, or whose answer is waited for, no longer counts as one under way, so
/// that closing the process waits only for requests that are not written yet.
pub proof fn closing_waits_only_for_what_is_not_written(
    stage: SendStage,
    before: SendView,
    outcome: Result<(), String>,
    next: SendStage,
    after: SendView,
    action: SendAction,
)
    requires
        sends(stage, before, outcome, next, after, action),
        stage == SendStage::Waiting || stage == SendStage::Ended ==> !counts(
            before.request.admission,
        ),
    ensures
        next == SendStage::Waiting || next == SendStage::Ended ==> !counts(after.request.admission),
{
}

/// A request that cannot be recorded, neither its start nor its failure, takes the permit of its
/// workspace away: nothing more is admitted there until it is verified again.
pub proof fn what_cannot_be_recorded_closes_its_workspace(
    stage: SendStage,
    before: SendView,
    error: String,
    next: SendStage,
    after: SendView,
    action: SendAction,
)
    requires
        stage == SendStage::Recording || stage is RecordingFailure,
        sends(stage, before, Err(error), next, after, action),
    ensures
        !after.gate.permits.dom().contains(
            (before.session.session_epoch, before.request.workspace_id@),
        ),
        next == SendStage::Ended,
        action is Failed,
{
}

} // verus!
