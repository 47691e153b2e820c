//! The admission gate: whether inference may start, and how many requests are under way.

use crate::search::{first_where, lemma_first_where_found, position_where, retain_where};
use crate::text::same_text;
use vstd::prelude::*;
use vstd::string::*;

verus! {

/// Whether the process as a whole admits inference.
#[derive(Debug, Clone, Copy, PartialEq, Eq, Structural)]
pub enum ProcessPolicy {
    /// The limiter is off: everything is admitted.
    DisabledOpen,
    /// Nothing is admitted.
    EnabledClosed,
    /// Verified sessions are admitted.
    EnabledOpen,
}

impl ProcessPolicy {
    pub open spec fn code(self) -> u8 {
        match self {
            ProcessPolicy::DisabledOpen => 0,
            ProcessPolicy::EnabledClosed => 1,
            ProcessPolicy::EnabledOpen => 2,
        }
    }

    /// The policy that a code stands for; a code of none stands for the closed one.
    pub open spec fn of_code(value: u8) -> ProcessPolicy {
        if value == 0 {
            ProcessPolicy::DisabledOpen
        } else if value == 2 {
            ProcessPolicy::EnabledOpen
        } else {
            ProcessPolicy::EnabledClosed
        }
    }

    /// The policy as one byte.
    pub fn encode(self) -> (r: u8)
        ensures
            r == self.code(),
    {
        match self {
            ProcessPolicy::DisabledOpen => 0,
            ProcessPolicy::EnabledClosed => 1,
            ProcessPolicy::EnabledOpen => 2,
        }
    }

    /// The policy that a byte stands for.
    pub fn decode(value: u8) -> (r: ProcessPolicy)
        ensures
            r == ProcessPolicy::of_code(value),
    {
        match value {
            0 => ProcessPolicy::DisabledOpen,
            2 => ProcessPolicy::EnabledOpen,
            _ => ProcessPolicy::EnabledClosed,
        }
    }
}

/// Why a request is admitted or not.
#[derive(Debug, Clone, Copy, PartialEq, Eq, Structural)]
pub enum AdmissionReason {
    Open,
    GuardDisabled,
    ProcessClosed,
    EpochUnverified,
    WorkspaceUnbound,
}

/// Whether a request is admitted, and why.
#[derive(Debug, Clone, Copy, PartialEq, Eq, Structural)]
pub struct AdmissionStatus {
    pub open: bool,
    pub reason: AdmissionReason,
}

/// Whether a workspace is admitted in a session.
#[derive(Debug)]
struct Permit {
    epoch: String,
    workspace_id: String,
    open: bool,
}

/// A session and a workspace in it.
pub type EpochWorkspace = (Seq<char>, Seq<char>);

/// What a gate holds.
#[verifier::ext_equal]
pub struct GateView {
    pub policy: ProcessPolicy,
    pub permits: Map<EpochWorkspace, bool>,
    pub admissions: usize,
}

impl GateView {
    /// Whether a request of the workspace in the session is admitted.
    pub open spec fn status(self, epoch: Option<Seq<char>>, workspace_id: Seq<char>) -> AdmissionStatus {
        match self.policy {
            ProcessPolicy::DisabledOpen => AdmissionStatus {
                open: true,
                reason: AdmissionReason::GuardDisabled,
            },
            ProcessPolicy::EnabledClosed => AdmissionStatus {
                open: false,
                reason: AdmissionReason::ProcessClosed,
            },
            ProcessPolicy::EnabledOpen => if epoch is Some && self.permits.dom().contains(
                (epoch->0, workspace_id),
            ) {
                if self.permits[(epoch->0, workspace_id)] {
                    AdmissionStatus { open: true, reason: AdmissionReason::Open }
                } else {
                    AdmissionStatus { open: false, reason: AdmissionReason::EpochUnverified }
                }
            } else {
                AdmissionStatus { open: false, reason: AdmissionReason::WorkspaceUnbound }
            },
        }
    }

    /// The process gate with one request more under way.
    pub open spec fn admitted(self) -> GateView {
        GateView {
            admissions: if self.admissions == usize::MAX {
                usize::MAX
            } else {
                (self.admissions + 1) as usize
            },
            ..self
        }
    }

    /// The process gate with one request less under way.
    pub open spec fn released(self) -> GateView {
        GateView {
            admissions: if self.admissions == 0 { 0 } else { (self.admissions - 1) as usize },
            ..self
        }
    }

    /// The process gate after a request ends that has ended before or not.
    pub open spec fn ended(self, before: bool) -> GateView {
        if before {
            self
        } else {
            self.released()
        }
    }
}

spec fn permit_key(permit: Permit) -> EpochWorkspace {
    (permit.epoch@, permit.workspace_id@)
}

spec fn keyed(key: EpochWorkspace) -> spec_fn(Permit) -> bool {
    |permit: Permit| permit_key(permit) == key
}

spec fn permit_map(permits: Seq<Permit>) -> Map<EpochWorkspace, bool>
    decreases permits.len(),
{
    if permits.len() == 0 {
        Map::empty()
    } else {
        permit_map(permits.drop_first()).insert(permit_key(permits[0]), permits[0].open)
    }
}

proof fn lemma_permit_map(permits: Seq<Permit>, key: EpochWorkspace)
    ensures
        permit_map(permits).dom().contains(key) <==> first_where(permits, keyed(key)) is Some,
        first_where(permits, keyed(key)) matches Some(at) ==> 0 <= at < permits.len()
            && permit_map(permits)[key] == permits[at].open,
    decreases permits.len(),
{
    if permits.len() > 0 && permit_key(permits[0]) != key {
        lemma_permit_map(permits.drop_first(), key);
    }
}

/// The process gate that decides on every request.
pub struct ProcessGate {
    policy: ProcessPolicy,
    permits: Vec<Permit>,
    admissions: usize,
}

impl View for ProcessGate {
    type V = GateView;

    closed spec fn view(&self) -> GateView {
        GateView {
            policy: self.policy,
            permits: permit_map(self.permits@),
            admissions: self.admissions,
        }
    }
}

impl Default for ProcessGate {
    fn default() -> (r: ProcessGate)
        ensures
            r@ == (GateView {
                policy: ProcessPolicy::DisabledOpen,
                permits: Map::empty(),
                admissions: 0,
            }),
    {
        ProcessGate {
            policy: ProcessPolicy::DisabledOpen,
            permits: Vec::new(),
            admissions: 0,
        }
    }
}

impl ProcessGate {
    /// The present policy.
    pub fn policy(&self) -> (r: ProcessPolicy)
        ensures
            r == self@.policy,
    {
        self.policy
    }

    /// Sets the policy. A token given out before is of a request before this call; none that
    /// the new policy forbids is given out after it.
    pub fn set_policy(&mut self, policy: ProcessPolicy)
        ensures
            final(self)@ == (GateView { policy, ..old(self)@ }),
    {
        self.policy = policy;
    }

    /// Admits nothing from here on.
    pub fn close(&mut self)
        ensures
            final(self)@ == (GateView { policy: ProcessPolicy::EnabledClosed, ..old(self)@ }),
    {
        self.set_policy(ProcessPolicy::EnabledClosed);
    }

    fn find(&self, epoch: &str, workspace_id: &str) -> (r: Option<usize>)
        ensures
            match r {
                Some(at) => first_where(self.permits@, keyed((epoch@, workspace_id@))) == Some(
                    at as int,
                ) && at < self.permits@.len(),
                None => first_where(self.permits@, keyed((epoch@, workspace_id@))) is None,
            },
    {
        let wanted = |permit: &Permit| -> (b: bool)
            ensures
                b == (permit_key(*permit) == (epoch@, workspace_id@)),
        {
            same_text(permit.epoch.as_str(), epoch) && same_text(
                permit.workspace_id.as_str(),
                workspace_id,
            )
        };
        position_where(&self.permits, wanted, Ghost(keyed((epoch@, workspace_id@))))
    }

    /// Knows the workspace in the session, not yet verified.
    pub fn register_closed_epoch(&mut self, epoch: String, workspace_id: String)
        ensures
            final(self)@ == (GateView {
                permits: old(self)@.permits.insert((epoch@, workspace_id@), false),
                ..old(self)@
            }),
    {
        let ghost key = (epoch@, workspace_id@);
        let ghost before = self.permits@;
        match self.find(epoch.as_str(), workspace_id.as_str()) {
            Some(at) => {
                let mut permit = self.permits.remove(at);
                permit.open = false;
                self.permits.insert(at, permit);
                proof {
                    lemma_permit_update(before, self.permits@, at as int, key, false);
                }
            },
            None => {
                self.permits.push(Permit { epoch, workspace_id, open: false });
                proof {
                    lemma_permit_push(before, self.permits@.last(), key);
                }
            },
        }
    }

    /// Admits the workspace in the session, or stops admitting it, where it is known.
    pub fn set_epoch_open(&mut self, epoch: &str, workspace_id: &str, open: bool)
        ensures
            final(self)@ == (GateView {
                permits: if old(self)@.permits.dom().contains((epoch@, workspace_id@)) {
                    old(self)@.permits.insert((epoch@, workspace_id@), open)
                } else {
                    old(self)@.permits
                },
                ..old(self)@
            }),
    {
        let ghost key = (epoch@, workspace_id@);
        let ghost before = self.permits@;
        proof {
            lemma_permit_map(before, key);
        }
        if let Some(at) = self.find(epoch, workspace_id) {
            let mut permit = self.permits.remove(at);
            permit.open = open;
            self.permits.insert(at, permit);
            proof {
                lemma_permit_update(before, self.permits@, at as int, key, open);
            }
        }
    }

    /// Forgets the workspace in the session.
    pub fn revoke_epoch(&mut self, epoch: &str, workspace_id: &str)
        ensures
            final(self)@ == (GateView {
                permits: old(self)@.permits.remove((epoch@, workspace_id@)),
                ..old(self)@
            }),
    {
        let ghost key = (epoch@, workspace_id@);
        let ghost before = self.permits@;
        let keep = |permit: &Permit| -> (b: bool)
            ensures
                b == (permit_key(*permit) != (epoch@, workspace_id@)),
        {
            !(same_text(permit.epoch.as_str(), epoch) && same_text(
                permit.workspace_id.as_str(),
                workspace_id,
            ))
        };
        let ghost model = |permit: Permit| permit_key(permit) != key;
        retain_where(&mut self.permits, keep, Ghost(model));
        proof {
            lemma_permit_filter(before, key);
        }
    }

    /// Whether a request of the workspace in the session is admitted.
    pub fn status(&self, epoch: Option<&str>, workspace_id: &str) -> (r: AdmissionStatus)
        ensures
            r == self@.status(
                match epoch {
                    Some(e) => Some(e@),
                    None => None,
                },
                workspace_id@,
            ),
    {
        self.status_locked(epoch, workspace_id)
    }

    /// Lets a request through, or says why not.
    pub fn try_admit(&mut self, epoch: Option<&str>, workspace_id: &str) -> (r: Result<
        AdmissionToken,
        AdmissionStatus,
    >)
        ensures
            ({
                let status = old(self)@.status(
                    match epoch {
                        Some(e) => Some(e@),
                        None => None,
                    },
                    workspace_id@,
                );
                match r {
                    Ok(token) => status.open && !token@ && final(self)@ == old(self)@.admitted(),
                    Err(refusal) => !status.open && refusal == status && final(self)@ == old(
                        self,
                    )@,
                }
            }),
    {
        let status = self.status_locked(epoch, workspace_id);
        if !status.open {
            return Err(status);
        }
        self.admissions = self.admissions.saturating_add(1);
        Ok(AdmissionToken { released: false })
    }

    /// Whether a request of the workspace in the session is admitted, as the process gate stands.
    pub fn status_locked(&self, epoch: Option<&str>, workspace_id: &str) -> (r: AdmissionStatus)
        ensures
            r == self@.status(
                match epoch {
                    Some(e) => Some(e@),
                    None => None,
                },
                workspace_id@,
            ),
    {
        match self.policy {
            ProcessPolicy::DisabledOpen => AdmissionStatus {
                open: true,
                reason: AdmissionReason::GuardDisabled,
            },
            ProcessPolicy::EnabledClosed => AdmissionStatus {
                open: false,
                reason: AdmissionReason::ProcessClosed,
            },
            ProcessPolicy::EnabledOpen => {
                let permit = match epoch {
                    Some(e) => {
                        proof {
                            lemma_permit_map(self.permits@, (e@, workspace_id@));
                        }
                        match self.find(e, workspace_id) {
                            Some(at) => Some(self.permits[at].open),
                            None => None,
                        }
                    },
                    None => None,
                };
                match permit {
                    Some(true) => AdmissionStatus { open: true, reason: AdmissionReason::Open },
                    Some(false) => AdmissionStatus {
                        open: false,
                        reason: AdmissionReason::EpochUnverified,
                    },
                    None => AdmissionStatus {
                        open: false,
                        reason: AdmissionReason::WorkspaceUnbound,
                    },
                }
            },
        }
    }

    /// How many requests are under way.
    pub fn active_admissions(&self) -> (r: usize)
        ensures
            r == self@.admissions,
    {
        self.admissions
    }
}

proof fn lemma_permit_update(
    before: Seq<Permit>,
    after: Seq<Permit>,
    at: int,
    key: EpochWorkspace,
    open: bool,
)
    requires
        0 <= at < before.len(),
        first_where(before, keyed(key)) == Some(at),
        after.len() == before.len(),
        permit_key(after[at]) == permit_key(before[at]),
        after[at].open == open,
        forall|i: int| 0 <= i < before.len() && i != at ==> #[trigger] after[i] == before[i],
    ensures
        permit_map(after) == permit_map(before).insert(key, open),
    decreases before.len(),
{
    lemma_first_where_found(before, keyed(key));
    assert(permit_key(before[at]) == key);
    if at == 0 {
        assert(after.drop_first() =~= before.drop_first());
        assert(permit_map(after) =~= permit_map(before).insert(key, open));
    } else {
        assert(after[0] == before[0]);
        assert(!keyed(key)(before[0]));
        lemma_permit_update(before.drop_first(), after.drop_first(), at - 1, key, open);
        assert(permit_map(after) =~= permit_map(before).insert(key, open));
    }
}

proof fn lemma_permit_push(before: Seq<Permit>, permit: Permit, key: EpochWorkspace)
    requires
        permit_key(permit) == key,
        first_where(before, keyed(key)) is None,
    ensures
        permit_map(before.push(permit)) == permit_map(before).insert(key, permit.open),
    decreases before.len(),
{
    let after = before.push(permit);
    if before.len() == 0 {
        assert(after.drop_first() =~= before);
        assert(permit_map(after) =~= permit_map(before).insert(key, permit.open));
    } else {
        assert(!keyed(key)(before[0]));
        assert(first_where(before.drop_first(), keyed(key)) is None);
        lemma_permit_push(before.drop_first(), permit, key);
        assert(after.drop_first() =~= before.drop_first().push(permit));
        assert(after[0] == before[0]);
        assert(permit_map(after) =~= permit_map(before).insert(key, permit.open));
    }
}

proof fn lemma_permit_filter(permits: Seq<Permit>, key: EpochWorkspace)
    ensures
        permit_map(permits.filter(|permit: Permit| permit_key(permit) != key)) == permit_map(
            permits,
        ).remove(key),
    decreases permits.len(),
{
    let model = |permit: Permit| permit_key(permit) != key;
    reveal(Seq::filter);
    if permits.len() == 0 {
        assert(permit_map(permits) =~= permit_map(permits).remove(key));
    } else {
        let head = seq![permits[0]];
        let tail = permits.drop_first();
        lemma_permit_filter(tail, key);
        Seq::filter_distributes_over_add(head, tail, model);
        assert(permits =~= head + tail);
        assert(head.drop_last() =~= Seq::<Permit>::empty());
        assert(Seq::<Permit>::empty().filter(model) =~= Seq::<Permit>::empty());
        if model(permits[0]) {
            assert(head.filter(model) =~= head);
            assert(permits.filter(model)[0] == permits[0]);
            assert(permits.filter(model).drop_first() =~= tail.filter(model));
            assert(permit_map(permits.filter(model)) =~= permit_map(permits).remove(key));
        } else {
            assert(head.filter(model) =~= Seq::<Permit>::empty());
            assert(permits.filter(model) =~= tail.filter(model));
            assert(permit_map(permits.filter(model)) =~= permit_map(permits).remove(key));
        }
    }
}

/// A request under way. It counts until it is released.
pub struct AdmissionToken {
    released: bool,
}

impl View for AdmissionToken {
    type V = bool;

    /// Whether the request has been released.
    closed spec fn view(&self) -> bool {
        self.released
    }
}

impl AdmissionToken {
    /// Ends the request.
    pub fn release(self, gate: &mut ProcessGate)
        ensures
            final(gate)@ == old(gate)@.ended(self@),
    {
        let mut token = self;
        token.release_inner(gate);
    }

    /// Ends the request, where it has not ended yet.
    pub fn release_inner(&mut self, gate: &mut ProcessGate)
        ensures
            final(self)@,
            final(gate)@ == old(gate)@.ended(old(self)@),
    {
        if !self.released {
            gate.admissions = gate.admissions.saturating_sub(1);
            self.released = true;
        }
    }
}

/// Every policy survives its byte.
pub proof fn policy_round_trip(policy: ProcessPolicy)
    ensures
        ProcessPolicy::of_code(policy.code()) == policy,
{
}

/// A closed gate admits nothing, whatever sessions are verified.
pub proof fn closed_admits_nothing(gate: GateView, epoch: Option<Seq<char>>, workspace_id: Seq<char>)
    requires
        gate.policy == ProcessPolicy::EnabledClosed,
    ensures
        !gate.status(epoch, workspace_id).open,
{
}

/// A gate that is off admits everything.
pub proof fn disabled_admits_everything(
    gate: GateView,
    epoch: Option<Seq<char>>,
    workspace_id: Seq<char>,
)
    requires
        gate.policy == ProcessPolicy::DisabledOpen,
    ensures
        gate.status(epoch, workspace_id).open,
{
}

/// An open gate admits exactly the workspaces that are verified in their session.
pub proof fn enabled_open_admits_exactly_the_verified(
    gate: GateView,
    epoch: Option<Seq<char>>,
    workspace_id: Seq<char>,
)
    requires
        gate.policy == ProcessPolicy::EnabledOpen,
    ensures
        gate.status(epoch, workspace_id).open <==> epoch is Some && gate.permits.dom().contains(
            (epoch->0, workspace_id),
        ) && gate.permits[(epoch->0, workspace_id)],
{
}

/// Admitting and releasing gives back the process gate, unless the count had reached its limit.
pub proof fn admit_then_release(gate: GateView)
    requires
        gate.admissions < usize::MAX,
    ensures
        gate.admitted().released() == gate,
{
}

/// A request that was admitted is counted down when it ends, whatever policy was set in between,
/// and not again when it is ended once more.
pub proof fn a_request_is_counted_down_once(gate: GateView, policy: ProcessPolicy)
    requires
        gate.admissions < usize::MAX,
    ensures
        (GateView { policy, ..gate.admitted() }).ended(false) == (GateView { policy, ..gate }),
        (GateView { policy, ..gate.admitted() }).ended(false).ended(true) == (GateView {
            policy,
            ..gate
        }),
{
}

} // verus!
