//! Sending a request: what is checked before it is written, what is kept while it is under
//! way, and what is reported when it fails.

use crate::events::{EventView, QuotaGuardEvent};
use crate::gate::{
    AdmissionReason, AdmissionStatus, AdmissionToken, GateView, ProcessGate, ProcessPolicy,
};
use crate::json::{Json, JsonView};
use crate::model::{copy_text, text_view};
use crate::protocol::request_message;
use crate::session::{PendingLocalStart, RequestContext, SessionState, SessionView};
use crate::text::{decimal, decimal_text, same_text};
use crate::threads::{extract_from_container, thread_of_container};
use vstd::prelude::*;
use vstd::string::*;

verus! {

broadcast use vstd::std_specs::hash::group_hash_axioms;

/// How long an answer is waited for, in seconds.
pub const REQUEST_TIMEOUT_SECONDS: u64 = 300;

/// The name of a reason in messages.
pub open spec fn spec_reason_name(reason: AdmissionReason) -> Seq<char> {
    match reason {
        AdmissionReason::Open => "open"@,
        AdmissionReason::GuardDisabled => "guardDisabled"@,
        AdmissionReason::ProcessClosed => "processClosed"@,
        AdmissionReason::EpochUnverified => "epochUnverified"@,
        AdmissionReason::WorkspaceUnbound => "workspaceUnbound"@,
    }
}

/// The name of a reason in messages.
pub fn reason_name(reason: AdmissionReason) -> (r: &'static str)
    ensures
        r@ == spec_reason_name(reason),
{
    match reason {
        AdmissionReason::Open => "open",
        AdmissionReason::GuardDisabled => "guardDisabled",
        AdmissionReason::ProcessClosed => "processClosed",
        AdmissionReason::EpochUnverified => "epochUnverified",
        AdmissionReason::WorkspaceUnbound => "workspaceUnbound",
    }
}

/// What a request that is not admitted is answered.
pub open spec fn blocked_error(status: AdmissionStatus) -> Seq<char> {
    "QUOTA_GUARD_BLOCKED|state="@ + spec_reason_name(status.reason) + "|verifyAt="@
}

/// What a request that is not admitted is answered.
pub fn quota_guard_blocked_error(status: AdmissionStatus) -> (r: String)
    ensures
        r@ == blocked_error(status),
{
    let mut out = "QUOTA_GUARD_BLOCKED|state=".to_owned();
    out.append(reason_name(status.reason));
    out.append("|verifyAt=");
    out
}

/// Whether a request asks for inference, and so needs to be admitted.
pub open spec fn asks_for_inference(method: Seq<char>) -> bool {
    method == "turn/start"@ || method == "turn/steer"@ || method == "review/start"@ || method
        == "thread/compact/start"@
}

/// Whether a request asks for inference.
pub fn is_inference(method: &str) -> (r: bool)
    ensures
        r == asks_for_inference(method@),
{
    same_text(method, "turn/start") || same_text(method, "turn/steer") || same_text(
        method,
        "review/start",
    ) || same_text(method, "thread/compact/start")
}

/// What a start holds.
pub struct StartView {
    pub request_id: u64,
    pub request_thread_id: Option<Seq<char>>,
    pub expected_thread_id: Option<Seq<char>>,
    pub request_kind: Seq<char>,
}

impl View for PendingLocalStart {
    type V = StartView;

    open spec fn view(&self) -> StartView {
        StartView {
            request_id: self.request_id,
            request_thread_id: text_view(self.request_thread_id),
            expected_thread_id: text_view(self.expected_thread_id),
            request_kind: self.request_kind@,
        }
    }
}

/// The start that a request asks for: a turn or a compaction in a thread that is known, or a
/// review in one that is not.
pub open spec fn asked_start(request_id: u64, method: Seq<char>, params: JsonView) -> Option<
    StartView,
> {
    let thread = thread_of_container(params);
    if method == "turn/start"@ || method == "thread/compact/start"@ {
        Some(
            StartView {
                request_id,
                request_thread_id: thread,
                expected_thread_id: thread,
                request_kind: method,
            },
        )
    } else if method == "review/start"@ {
        Some(
            StartView {
                request_id,
                request_thread_id: thread,
                expected_thread_id: None,
                request_kind: method,
            },
        )
    } else {
        None
    }
}

/// What an optional start holds.
pub open spec fn start_view(start: Option<PendingLocalStart>) -> Option<StartView> {
    match start {
        Some(s) => Some(s@),
        None => None,
    }
}

/// A request under way.
pub struct OutgoingRequest {
    pub request_id: u64,
    pub workspace_id: String,
    pub method: String,
    pub params: Json,
    pub start: Option<PendingLocalStart>,
    pub admission: Option<AdmissionToken>,
}

/// Whether the request still counts as one under way.
pub open spec fn counts(admission: Option<AdmissionToken>) -> bool {
    admission matches Some(token) && !token@
}

fn start_of(request_id: u64, method: &str, params: &Json) -> (r: Option<PendingLocalStart>)
    ensures
        start_view(r) == asked_start(request_id, method@, params@),
{
    let thread = extract_from_container(params);
    if same_text(method, "turn/start") || same_text(method, "thread/compact/start") {
        let expected = copy_text(&thread);
        Some(
            PendingLocalStart {
                request_id,
                request_thread_id: thread,
                expected_thread_id: expected,
                request_kind: method.to_owned(),
            },
        )
    } else if same_text(method, "review/start") {
        Some(
            PendingLocalStart {
                request_id,
                request_thread_id: thread,
                expected_thread_id: None,
                request_kind: method.to_owned(),
            },
        )
    } else {
        None
    }
}

/// What a request of a workspace that is not bound is answered.
pub const NOT_BOUND: &'static str = "workspace session is not bound to this workspace";

/// Whether beginning a request ends with `r` and leaves the process gate as `after`. The workspace
/// comes first: a request of one that is not bound does not reach the process gate.
pub open spec fn begins(
    session: SessionView,
    gate: GateView,
    request_id: u64,
    workspace_id: Seq<char>,
    method: Seq<char>,
    params: Json,
    allow_unbound: bool,
    r: Result<OutgoingRequest, String>,
    after: GateView,
) -> bool {
    let bound = allow_unbound || session.bound_workspace_ids.contains(workspace_id);
    let inference = asks_for_inference(method);
    let status = gate.status(Some(session.session_epoch), workspace_id);
    match r {
        Ok(request) => {
            &&& bound
            &&& inference ==> status.open
            &&& after == if inference { gate.admitted() } else { gate }
            &&& request.request_id == request_id
            &&& request.workspace_id@ == workspace_id
            &&& request.method@ == method
            &&& request.params == params
            &&& start_view(request.start) == asked_start(request_id, method, params@)
            &&& counts(request.admission) == inference
        },
        Err(message) => {
            &&& after == gate
            &&& !bound || (inference && !status.open)
            &&& message@ == if !bound { NOT_BOUND@ } else { blocked_error(status) }
        },
    }
}

/// Begins a request. It is refused where its workspace is not bound, unless that is allowed,
/// and, where it asks for inference, where the process gate does not admit it.
pub fn begin_request(
    session: &SessionState,
    gate: &mut ProcessGate,
    request_id: u64,
    workspace_id: &str,
    method: &str,
    params: Json,
    allow_unbound: bool,
) -> (r: Result<OutgoingRequest, String>)
    ensures
        begins(
            session@,
            old(gate)@,
            request_id,
            workspace_id@,
            method@,
            params,
            allow_unbound,
            r,
            final(gate)@,
        ),
{
    if !allow_unbound && !session.is_workspace_bound(workspace_id) {
        return Err(NOT_BOUND.to_owned());
    }
    let mut admission: Option<AdmissionToken> = None;
    if is_inference(method) {
        match gate.try_admit(Some(session.session_epoch.as_str()), workspace_id) {
            Ok(token) => {
                admission = Some(token);
            },
            Err(status) => {
                return Err(quota_guard_blocked_error(status));
            },
        }
    }
    let start = start_of(request_id, method, &params);
    Ok(
        OutgoingRequest {
            request_id,
            workspace_id: workspace_id.to_owned(),
            method: method.to_owned(),
            params,
            start,
            admission,
        },
    )
}

/// The context that is kept of a request.
pub open spec fn context_of(request: OutgoingRequest) -> RequestContext {
    RequestContext {
        workspace_id: request.workspace_id,
        method: request.method,
        pending_local_start: request.start,
    }
}

/// The session that waits for the request's answer.
pub open spec fn with_request(session: SessionView, request: OutgoingRequest) -> SessionView {
    SessionView {
        request_context: session.request_context.insert(request.request_id, context_of(request)),
        thread_workspace: match thread_of_container(request.params@) {
            Some(thread) => session.thread_workspace.insert(thread, request.workspace_id@),
            None => session.thread_workspace,
        },
        ..session
    }
}

/// The process gate after the request no longer counts.
pub open spec fn after_release(gate: GateView, admission: Option<AdmissionToken>) -> GateView {
    if counts(admission) {
        gate.released()
    } else {
        gate
    }
}

/// The process gate without the workspace's permit in the session.
pub open spec fn without_permit(
    gate: GateView,
    session_epoch: Seq<char>,
    workspace_id: Seq<char>,
) -> GateView {
    GateView { permits: gate.permits.remove((session_epoch, workspace_id)), ..gate }
}

impl OutgoingRequest {
    /// The report that has to be recorded before the request is written, where it asks for a
    /// start.
    pub fn start_event(&self, session: &SessionState) -> (r: Option<QuotaGuardEvent>)
        ensures
            match (r, self.start) {
                (Some(event), Some(start)) => event@ == (EventView::PendingLocalStart {
                    request_id: start.request_id,
                    session_epoch: session@.session_epoch,
                    workspace_id: self.workspace_id@,
                    request_thread_id: text_view(start.request_thread_id),
                    expected_thread_id: text_view(start.expected_thread_id),
                    request_kind: start.request_kind@,
                }),
                (None, None) => true,
                _ => false,
            },
    {
        match &self.start {
            Some(start) => Some(
                QuotaGuardEvent::PendingLocalStart {
                    request_id: start.request_id,
                    session_epoch: session.session_epoch.clone(),
                    workspace_id: self.workspace_id.clone(),
                    request_thread_id: copy_text(&start.request_thread_id),
                    expected_thread_id: copy_text(&start.expected_thread_id),
                    request_kind: start.request_kind.clone(),
                },
            ),
            None => None,
        }
    }

    fn release(&mut self, gate: &mut ProcessGate)
        ensures
            final(gate)@ == after_release(old(gate)@, old(self).admission),
            *final(self) == (OutgoingRequest { admission: None, ..*old(self) }),
    {
        if let Some(token) = self.admission.take() {
            token.release(gate);
        }
    }

    /// Goes on once the start has been recorded or could not be. Where it could not, the
    /// request is not written: the workspace is no longer admitted and the request fails.
    /// Otherwise the session waits for the answer.
    pub fn start_recorded(
        &mut self,
        session: &mut SessionState,
        gate: &mut ProcessGate,
        outcome: Result<(), String>,
    ) -> (r: Result<(), String>)
        ensures
            match outcome {
                Ok(()) => {
                    &&& r is Ok
                    &&& *final(self) == *old(self)
                    &&& final(gate)@ == old(gate)@
                    &&& final(session)@ == with_request(old(session)@, *old(self))
                },
                Err(error) => {
                    &&& r is Err && r->Err_0@
                        == "quota guard could not persist pending local start: "@ + error@
                    &&& *final(self) == (OutgoingRequest { admission: None, ..*old(self) })
                    &&& final(gate)@ == after_release(
                        without_permit(
                            old(gate)@,
                            old(session)@.session_epoch,
                            old(self).workspace_id@,
                        ),
                        old(self).admission,
                    )
                    &&& final(session)@ == old(session)@
                },
            },
    {
        match outcome {
            Err(error) => {
                session.close_workspace_admission(gate, self.workspace_id.as_str());
                self.release(gate);
                let mut message = "quota guard could not persist pending local start: ".to_owned();
                message.append(error.as_str());
                Err(message)
            },
            Ok(()) => {
                let kept = match &self.start {
                    Some(start) => Some(start.clone()),
                    None => None,
                };
                let _ = session.request_context.insert(
                    self.request_id,
                    RequestContext {
                        workspace_id: self.workspace_id.clone(),
                        method: self.method.clone(),
                        pending_local_start: kept,
                    },
                );
                if let Some(thread) = extract_from_container(&self.params) {
                    session.thread_workspace.insert(thread.as_str(), self.workspace_id.as_str());
                }
                Ok(())
            },
        }
    }

    /// The message to write.
    pub fn message(&self) -> (r: Json)
        ensures
            r@ == JsonView::Object(
                seq![
                    ("id"@, JsonView::Unsigned(self.request_id)),
                    ("method"@, JsonView::Text(self.method@)),
                    ("params"@, self.params@),
                ],
            ),
    {
        request_message(self.request_id, self.method.as_str(), self.params.clone())
    }

    /// Ends the part of the request that a closing gate waits for: it has been written, and
    /// its answer may take minutes.
    pub fn written(&mut self, gate: &mut ProcessGate)
        ensures
            final(gate)@ == after_release(old(gate)@, old(self).admission),
            *final(self) == (OutgoingRequest { admission: None, ..*old(self) }),
    {
        self.release(gate);
    }

    /// Gives the request up: the session no longer waits for it. Where it asked for a start,
    /// the failure has to be recorded.
    pub fn give_up(&self, session: &mut SessionState, reason: &str) -> (r: Option<QuotaGuardEvent>)
        ensures
            final(session)@ == (SessionView {
                request_context: old(session)@.request_context.remove(self.request_id),
                ..old(session)@
            }),
            match (r, self.start) {
                (Some(event), Some(start)) => event@ == (EventView::StartFailed {
                    request_id: start.request_id,
                    session_epoch: old(session)@.session_epoch,
                    workspace_id: self.workspace_id@,
                    reason: reason@,
                }),
                (None, None) => true,
                _ => false,
            },
    {
        let _ = session.request_context.remove(&self.request_id);
        match &self.start {
            Some(start) => Some(
                QuotaGuardEvent::StartFailed {
                    request_id: start.request_id,
                    session_epoch: session.session_epoch.clone(),
                    workspace_id: self.workspace_id.clone(),
                    reason: reason.to_owned(),
                },
            ),
            None => None,
        }
    }

    /// The error that a request which was given up ends with. Where the failure of its start
    /// could not be recorded, the workspace is no longer admitted.
    pub fn failed(
        &mut self,
        session: &SessionState,
        gate: &mut ProcessGate,
        reason: &str,
        recorded: Result<(), String>,
    ) -> (message: String)
        ensures
            *final(self) == (OutgoingRequest { admission: None, ..*old(self) }),
            match recorded {
                Ok(()) => message@ == reason@ && final(gate)@ == after_release(
                    old(gate)@,
                    old(self).admission,
                ),
                Err(error) => message@ == reason@
                    + "; quota guard could not persist failed local start: "@ + error@
                    && final(gate)@ == after_release(
                    without_permit(old(gate)@, session@.session_epoch, old(self).workspace_id@),
                    old(self).admission,
                ),
            },
    {
        let mut message = reason.to_owned();
        match recorded {
            Ok(()) => {},
            Err(error) => {
                session.close_workspace_admission(gate, self.workspace_id.as_str());
                message.append("; quota guard could not persist failed local start: ");
                message.append(error.as_str());
            },
        }
        self.release(gate);
        message
    }
}

/// How waiting for an answer ends without one.
#[derive(Debug, Clone, Copy, PartialEq, Eq, Structural)]
pub enum WaitFailure {
    /// The server is gone.
    Canceled,
    /// The answer did not come in time.
    TimedOut,
}

/// Why a request that was not answered failed.
pub fn wait_failure_reason(failure: WaitFailure) -> (r: String)
    ensures
        r@ == match failure {
            WaitFailure::Canceled => "request canceled"@,
            WaitFailure::TimedOut => "request timed out after "@ + decimal(
                REQUEST_TIMEOUT_SECONDS as nat,
            ) + " seconds"@,
        },
{
    match failure {
        WaitFailure::Canceled => "request canceled".to_owned(),
        WaitFailure::TimedOut => {
            let mut out = "request timed out after ".to_owned();
            out.append(decimal_text(REQUEST_TIMEOUT_SECONDS).as_str());
            out.append(" seconds");
            out
        },
    }
}

/// A refused request is told why: where the process gate refuses, the answer names its reason.
pub proof fn refusal_names_the_reason(gate: GateView, epoch: Option<Seq<char>>, workspace_id: Seq<char>)
    requires
        !gate.status(epoch, workspace_id).open,
    ensures
        ({
            let status = gate.status(epoch, workspace_id);
            &&& status.reason == AdmissionReason::ProcessClosed || status.reason
                == AdmissionReason::EpochUnverified || status.reason
                == AdmissionReason::WorkspaceUnbound
            &&& blocked_error(status) == "QUOTA_GUARD_BLOCKED|state="@ + spec_reason_name(
                status.reason,
            ) + "|verifyAt="@
        }),
{
}

/// While the limiter keeps the process closed, no request that starts a turn, steers one, starts a
/// review or compacts a thread goes out, whatever sessions are verified: each is refused, and the
/// answer names the reason. The count of requests under way stays.
pub proof fn a_closed_limiter_lets_no_inference_through(
    session: SessionView,
    gate: GateView,
    request_id: u64,
    workspace_id: Seq<char>,
    method: Seq<char>,
    params: Json,
    allow_unbound: bool,
    r: Result<OutgoingRequest, String>,
    after: GateView,
)
    requires
        begins(
            session,
            gate,
            request_id,
            workspace_id,
            method,
            params,
            allow_unbound,
            r,
            after,
        ),
        gate.policy == ProcessPolicy::EnabledClosed,
        method == "turn/start"@ || method == "turn/steer"@ || method == "review/start"@ || method
            == "thread/compact/start"@,
    ensures
        r is Err,
        after == gate,
        session.bound_workspace_ids.contains(workspace_id) || allow_unbound ==> r->Err_0@
            == "QUOTA_GUARD_BLOCKED|state=processClosed|verifyAt="@,
{
    assert("QUOTA_GUARD_BLOCKED|state="@ + "processClosed"@ + "|verifyAt="@
        =~= "QUOTA_GUARD_BLOCKED|state=processClosed|verifyAt="@) by {
        reveal_strlit("QUOTA_GUARD_BLOCKED|state=");
        reveal_strlit("processClosed");
        reveal_strlit("|verifyAt=");
        reveal_strlit("QUOTA_GUARD_BLOCKED|state=processClosed|verifyAt=");
    }
}

/// While the limiter watches, such a request goes out only from a workspace that is verified in
/// this session, and then counts as one under way; from one that is known but not verified, and
/// from one that is not known, it is refused and told so. While the limiter is off it goes out.
pub proof fn inference_goes_out_of_verified_workspaces_alone(
    session: SessionView,
    gate: GateView,
    request_id: u64,
    workspace_id: Seq<char>,
    method: Seq<char>,
    params: Json,
    r: Result<OutgoingRequest, String>,
    after: GateView,
)
    requires
        begins(session, gate, request_id, workspace_id, method, params, false, r, after),
        session.bound_workspace_ids.contains(workspace_id),
        gate.admissions < usize::MAX,
        method == "turn/start"@ || method == "turn/steer"@ || method == "review/start"@ || method
            == "thread/compact/start"@,
    ensures
        ({
            let key = (session.session_epoch, workspace_id);
            let known = gate.permits.dom().contains(key);
            let passes = gate.policy == ProcessPolicy::DisabledOpen || (gate.policy
                == ProcessPolicy::EnabledOpen && known && gate.permits[key]);
            &&& r is Ok <==> passes
            &&& passes ==> after == (GateView { admissions: (gate.admissions + 1) as usize, ..gate })
            &&& passes ==> r->Ok_0.admission is Some && !r->Ok_0.admission->0@
            &&& !passes ==> after == gate
            &&& gate.policy == ProcessPolicy::EnabledOpen && known && !gate.permits[key]
                ==> r->Err_0@ == "QUOTA_GUARD_BLOCKED|state="@ + "epochUnverified"@
                + "|verifyAt="@
            &&& gate.policy == ProcessPolicy::EnabledOpen && !known ==> r->Err_0@
                == "QUOTA_GUARD_BLOCKED|state="@ + "workspaceUnbound"@ + "|verifyAt="@
        }),
{
}

/// Any other request of a bound workspace goes out, whatever the process gate says, and does not
/// count. A request of a workspace that is not bound is refused before the process gate is asked,
/// whatever it asks for, unless it is allowed.
pub proof fn other_requests_pass_and_unbound_ones_do_not(
    session: SessionView,
    gate: GateView,
    request_id: u64,
    workspace_id: Seq<char>,
    method: Seq<char>,
    params: Json,
    allow_unbound: bool,
    r: Result<OutgoingRequest, String>,
    after: GateView,
)
    requires
        begins(
            session,
            gate,
            request_id,
            workspace_id,
            method,
            params,
            allow_unbound,
            r,
            after,
        ),
    ensures
        ({
            let bound = session.bound_workspace_ids.contains(workspace_id) || allow_unbound;
            let named = method == "turn/start"@ || method == "turn/steer"@ || method
                == "review/start"@ || method == "thread/compact/start"@;
            &&& !bound ==> r is Err && after == gate && r->Err_0@
                == "workspace session is not bound to this workspace"@
            &&& bound && !named ==> r is Ok && after == gate
            &&& r is Ok ==> r->Ok_0.request_id == request_id && r->Ok_0.workspace_id@
                == workspace_id && r->Ok_0.method@ == method && r->Ok_0.params == params
        }),
{
}

/// A request that goes out holds the start that it asks for: a turn or a compaction is expected in
/// the thread that its parameters name, a review in a thread that is not known yet; no other
/// request asks for a start. Whatever asks for a start is admitted first, and counts.
pub proof fn what_asks_for_a_start_is_admitted_first(
    session: SessionView,
    gate: GateView,
    request_id: u64,
    workspace_id: Seq<char>,
    method: Seq<char>,
    params: Json,
    allow_unbound: bool,
    request: OutgoingRequest,
    after: GateView,
)
    requires
        begins(
            session,
            gate,
            request_id,
            workspace_id,
            method,
            params,
            allow_unbound,
            Ok(request),
            after,
        ),
        gate.admissions < usize::MAX,
    ensures
        ({
            let turns = method == "turn/start"@ || method == "thread/compact/start"@;
            let reviews = method == "review/start"@;
            let named = match (params@.get("threadId"@), params@.get("thread_id"@)) {
                (Some(member), _) => Some(member),
                (None, other) => other,
            };
            &&& request.start is Some <==> turns || reviews
            &&& request.start matches Some(start) ==> {
                &&& start.request_id == request_id
                &&& start.request_kind@ == method
                &&& reviews ==> start.expected_thread_id is None
                &&& named matches Some(JsonView::Text(thread)) ==> text_view(
                    start.request_thread_id,
                ) == Some(thread) && (turns ==> text_view(start.expected_thread_id) == Some(thread))
                &&& gate.status(Some(session.session_epoch), workspace_id).open
                &&& after == (GateView { admissions: (gate.admissions + 1) as usize, ..gate })
            }
        }),
{
    reveal_strlit("turn/start");
    reveal_strlit("thread/compact/start");
    reveal_strlit("review/start");
    assert("turn/start"@.len() == 10);
    assert("thread/compact/start"@.len() == 20);
    assert("review/start"@.len() == 12);
}

/// A request that goes out is waited for under its number, with its workspace, method and start,
/// and the thread that its parameters name belongs to its workspace from then on.
pub proof fn a_request_is_waited_for_under_its_number(
    session: SessionView,
    request: OutgoingRequest,
    thread: Seq<char>,
)
    requires
        request.params@.get("threadId"@) == Some(JsonView::Text(thread)),
    ensures
        ({
            let after = with_request(session, request);
            &&& after.request_context.dom() =~= session.request_context.dom().insert(
                request.request_id,
            )
            &&& after.request_context[request.request_id].workspace_id == request.workspace_id
            &&& after.request_context[request.request_id].method == request.method
            &&& after.request_context[request.request_id].pending_local_start == request.start
            &&& forall|id: u64|
                id != request.request_id && session.request_context.dom().contains(id)
                    ==> #[trigger] after.request_context[id] == session.request_context[id]
            &&& after.thread_workspace == session.thread_workspace.insert(
                thread,
                request.workspace_id@,
            )
            &&& after == (SessionView {
                request_context: after.request_context,
                thread_workspace: after.thread_workspace,
                ..session
            })
        }),
{
}

} // verus!
