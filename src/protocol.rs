//! The authorization runner: a sequential state machine that correlates
//! outgoing join requests, inbound requests awaiting a local decision and
//! their answers by ticket.
use std::collections::HashMap;
use vstd::prelude::*;

verus! {

/// Correlation identifier of one exchange with one peer.
#[derive(Clone, Copy, PartialEq, Eq, Structural, Debug, Hash)]
pub struct Ticket(pub u64);

/// Structured protocol error of a join exchange.
#[derive(Clone, Copy, PartialEq, Eq, Structural, Debug, Hash)]
pub enum JoinSyncGroupError {
    Communication,
    InternalServer,
    Auth,
}

/// Terminal outcome of one exchange, as shown to the user.
#[derive(Clone, Copy, PartialEq, Eq, Structural, Debug)]
pub enum JoinSyncGroupResponse {
    Accepted { authorizor_device: u128 },
    Failed(JoinSyncGroupError),
    CriticalError,
}

/// What the new device needs to create the library it was admitted to.
#[derive(Debug)]
pub struct JoinedLibraryCreateArgs {
    pub pub_id: u128,
    pub name: String,
    pub description: Option<String>,
}

/// What a user who accepts a device hands back to bootstrap the library.
#[derive(Debug, Clone)]
pub struct BasicLibraryCreationArgs {
    pub id: u128,
    pub name: String,
    pub description: Option<String>,
}

/// The user's decision on a request received from another device.
#[derive(Debug)]
pub enum UserResponse {
    AcceptDeviceInSyncGroup { ticket: Ticket, accepted: Option<BasicLibraryCreationArgs> },
}

/// An event for the human-facing layer.
#[derive(Debug, PartialEq, Eq, Structural)]
pub enum NotifyUser {
    ReceivedJoinSyncGroupRequest { ticket: Ticket, asking_device: u128, sync_group: u128 },
    ReceivedJoinSyncGroupResponse { response: JoinSyncGroupResponse, sync_group: u128 },
    SendingJoinSyncGroupResponseError { error: JoinSyncGroupError, sync_group: u128 },
    TimedOutJoinRequest { device: u128, succeeded: bool },
}

/// A peer's answer to one dispatched request.
#[derive(Debug)]
pub enum PeerAnswer {
    Accepted { authorizor_device: u128, library: JoinedLibraryCreateArgs },
    Failed(JoinSyncGroupError),
    CriticalError,
}

/// One outgoing request to a group member.
#[derive(Clone, Copy, PartialEq, Eq, Structural, Debug)]
pub struct Dispatch {
    pub request: u64,
    pub device: u128,
}

/// One inbound request waiting for the user's decision.
#[derive(Clone, Copy, PartialEq, Eq, Structural, Debug)]
pub struct PendingDecision {
    pub asking_device: u128,
    pub sync_group: u128,
}

/// One logical join request, fanned out to every member of a group; it is
/// forgotten once none of its exchanges is outstanding.
#[derive(Clone, Copy, PartialEq, Eq, Structural, Debug)]
pub struct JoinRequestState {
    pub sync_group: u128,
    pub succeeded: bool,
    pub outstanding: u64,
}

/// A join request fanned out: its identifier and one ticket per member.
#[derive(Debug)]
pub struct JoinDispatch {
    pub request: u64,
    pub dispatches: Vec<(Ticket, u128)>,
}

/// Why the runner could not open a new exchange.
#[derive(Clone, Copy, PartialEq, Eq, Structural, Debug)]
pub enum RunnerError {
    TicketsExhausted,
}

/// What to do with a peer's answer.
#[derive(Debug)]
pub enum ResponseAction {
    /// Late, duplicate or uncorrelated: dropped.
    Discard,
    /// First acceptance of a logical request: fulfil its reply channel.
    Fulfil { request: u64, args: JoinedLibraryCreateArgs, notify: NotifyUser },
    /// A refusal or fault of one exchange: tell the user.
    Notify(NotifyUser),
}

/// The answer to send back to a device whose request the user decided on.
#[derive(Debug)]
pub struct PeerReply {
    pub ticket: Ticket,
    pub asking_device: u128,
    pub sync_group: u128,
    pub accepted: Option<BasicLibraryCreationArgs>,
}

impl PeerReply {
    /// The answer sent back to the asking device: an acceptance authorised
    /// by `authorizor_device` that carries the library to create, or a
    /// refusal as an authorisation failure.
    pub fn into_answer(self, authorizor_device: u128) -> (a: PeerAnswer)
        ensures
            match self.accepted {
                Some(args) => a == PeerAnswer::Accepted {
                    authorizor_device,
                    library: JoinedLibraryCreateArgs {
                        pub_id: args.id,
                        name: args.name,
                        description: args.description,
                    },
                },
                None => a == PeerAnswer::Failed(JoinSyncGroupError::Auth),
            },
    {
        match self.accepted {
            Some(args) => PeerAnswer::Accepted {
                authorizor_device,
                library: JoinedLibraryCreateArgs {
                    pub_id: args.id,
                    name: args.name,
                    description: args.description,
                },
            },
            None => PeerAnswer::Failed(JoinSyncGroupError::Auth),
        }
    }
}

/// Mathematical model of the runner's state.
pub struct RunnerModel {
    pub dispatched: Map<u64, Dispatch>,
    pub awaiting: Map<u64, PendingDecision>,
    pub requests: Map<u64, JoinRequestState>,
    pub next_ticket: u64,
    pub next_request: u64,
}

/// State of the authorization runner, owned by one generation at a time.
pub struct Runner {
    dispatched: HashMap<u64, Dispatch>,
    awaiting: HashMap<u64, PendingDecision>,
    requests: HashMap<u64, JoinRequestState>,
    next_ticket: u64,
    next_request: u64,
}

impl View for Runner {
    type V = RunnerModel;

    closed spec fn view(&self) -> RunnerModel {
        RunnerModel {
            dispatched: self.dispatched@,
            awaiting: self.awaiting@,
            requests: self.requests@,
            next_ticket: self.next_ticket,
            next_request: self.next_request,
        }
    }
}

/// The tickets of `d` that belong to logical request `r`.
pub open spec fn pending_in(d: Map<u64, Dispatch>, r: u64) -> Set<u64> {
    d.dom().filter(|t: u64| d[t].request == r)
}

impl RunnerModel {
    /// Tickets are issued from a counter, so every live ticket lies below it
    /// and belongs to exactly one kind of exchange; every dispatch belongs to
    /// a known logical request.
    pub open spec fn wf(self) -> bool {
        &&& forall|t: u64| #[trigger] self.dispatched.contains_key(t) ==> t < self.next_ticket
        &&& forall|t: u64| #[trigger] self.awaiting.contains_key(t) ==> t < self.next_ticket
        &&& forall|t: u64|
            #[trigger] self.dispatched.contains_key(t) ==> !self.awaiting.contains_key(t)
        &&& forall|t: u64| #[trigger] self.dispatched.contains_key(t)
            ==> self.requests.contains_key(self.dispatched[t].request)
        &&& forall|r: u64| #[trigger] self.requests.contains_key(r) ==> r < self.next_request
        &&& self.dispatched.dom().finite()
        &&& forall|r: u64| #[trigger]
            self.requests.contains_key(r) ==> self.requests[r].outstanding > 0
                && self.requests[r].outstanding == pending_in(self.dispatched, r).len()
    }

    /// A ticket that was issued and whose exchange has ended.
    pub open spec fn retired(self, t: u64) -> bool {
        &&& t < self.next_ticket
        &&& !self.dispatched.contains_key(t)
        &&& !self.awaiting.contains_key(t)
    }

    /// Whether a request over `n` members can still be given fresh tickets.
    pub open spec fn can_dispatch(self, n: int) -> bool {
        self.next_ticket + n <= u64::MAX && self.next_request < u64::MAX
    }

    /// The dispatch table after fanning request `request` out to `devices`,
    /// the i-th member receiving ticket `next_ticket + i`.
    pub open spec fn dispatched_with(self, request: u64, devices: Seq<u128>) -> Map<u64, Dispatch> {
        Map::new(
            |t: u64|
                self.dispatched.contains_key(t) || (self.next_ticket <= t && t
                    < self.next_ticket + devices.len()),
            |t: u64|
                if self.dispatched.contains_key(t) {
                    self.dispatched[t]
                } else {
                    Dispatch { request, device: devices[t - self.next_ticket] }
                },
        )
    }

    /// State after a join request for `sync_group` is fanned out to `devices`.
    pub open spec fn after_join_request(self, sync_group: u128, devices: Seq<u128>) -> RunnerModel {
        RunnerModel {
            dispatched: self.dispatched_with(self.next_request, devices),
            requests: if devices.len() > 0 {
                self.requests.insert(
                    self.next_request,
                    JoinRequestState { sync_group, succeeded: false, outstanding: devices.len() as u64 },
                )
            } else {
                self.requests
            },
            next_ticket: (self.next_ticket + devices.len()) as u64,
            next_request: (self.next_request + 1) as u64,
            ..self
        }
    }

    /// The logical requests once the dispatched exchange `t` has ended: its
    /// request has one exchange less outstanding, is forgotten when none is
    /// left, and has succeeded if `accepted`.
    pub open spec fn requests_after_ending(self, t: u64, accepted: bool) -> Map<
        u64,
        JoinRequestState,
    > {
        let r = self.dispatched[t].request;
        let req = self.requests[r];
        if req.outstanding <= 1 {
            self.requests.remove(r)
        } else {
            self.requests.insert(
                r,
                JoinRequestState {
                    sync_group: req.sync_group,
                    succeeded: req.succeeded || accepted,
                    outstanding: (req.outstanding - 1) as u64,
                },
            )
        }
    }

    /// State after a peer's answer on ticket `t`: the exchange ends, and an
    /// acceptance marks its logical request as succeeded.
    pub open spec fn after_answer(self, t: u64, accepted: bool) -> RunnerModel {
        if !self.dispatched.contains_key(t) {
            self
        } else {
            RunnerModel {
                dispatched: self.dispatched.remove(t),
                requests: self.requests_after_ending(t, accepted),
                ..self
            }
        }
    }

    /// The user-facing response reported for an answer.
    pub open spec fn reported(answer: PeerAnswer) -> JoinSyncGroupResponse {
        match answer {
            PeerAnswer::Accepted { authorizor_device, .. } => JoinSyncGroupResponse::Accepted {
                authorizor_device,
            },
            PeerAnswer::Failed(e) => JoinSyncGroupResponse::Failed(e),
            PeerAnswer::CriticalError => JoinSyncGroupResponse::CriticalError,
        }
    }

    /// What a peer's answer on ticket `t` leads to.
    pub open spec fn answer_action(self, t: u64, answer: PeerAnswer) -> ResponseAction {
        if !self.dispatched.contains_key(t) {
            ResponseAction::Discard
        } else {
            let req = self.requests[self.dispatched[t].request];
            if req.succeeded {
                ResponseAction::Discard
            } else {
                let notify = NotifyUser::ReceivedJoinSyncGroupResponse {
                    response: Self::reported(answer),
                    sync_group: req.sync_group,
                };
                match answer {
                    PeerAnswer::Accepted { library, .. } => ResponseAction::Fulfil {
                        request: self.dispatched[t].request,
                        args: library,
                        notify,
                    },
                    _ => ResponseAction::Notify(notify),
                }
            }
        }
    }

    /// State after the deadline of ticket `t` passes.
    pub open spec fn after_deadline(self, t: u64) -> RunnerModel {
        RunnerModel {
            dispatched: self.dispatched.remove(t),
            awaiting: self.awaiting.remove(t),
            requests: if self.dispatched.contains_key(t) {
                self.requests_after_ending(t, false)
            } else {
                self.requests
            },
            ..self
        }
    }

    /// What the deadline of ticket `t` reports.
    pub open spec fn deadline_notice(self, t: u64) -> Option<NotifyUser> {
        if self.dispatched.contains_key(t) {
            Some(
                NotifyUser::TimedOutJoinRequest {
                    device: self.dispatched[t].device,
                    succeeded: self.requests[self.dispatched[t].request].succeeded,
                },
            )
        } else if self.awaiting.contains_key(t) {
            Some(
                NotifyUser::TimedOutJoinRequest {
                    device: self.awaiting[t].asking_device,
                    succeeded: false,
                },
            )
        } else {
            None
        }
    }

    /// State after a request from `asking_device` arrives.
    pub open spec fn after_inbound(self, asking_device: u128, sync_group: u128) -> RunnerModel {
        RunnerModel {
            awaiting: self.awaiting.insert(
                self.next_ticket,
                PendingDecision { asking_device, sync_group },
            ),
            next_ticket: (self.next_ticket + 1) as u64,
            ..self
        }
    }

    /// State after the user decides on ticket `t`.
    pub open spec fn after_decision(self, t: u64) -> RunnerModel {
        RunnerModel { awaiting: self.awaiting.remove(t), ..self }
    }
}

proof fn lemma_pending_finite(d: Map<u64, Dispatch>, r: u64)
    requires
        d.dom().finite(),
    ensures
        pending_in(d, r).finite(),
{
    vstd::set_lib::lemma_len_subset(pending_in(d, r), d.dom());
}

proof fn lemma_pending_insert(d: Map<u64, Dispatch>, t: u64, x: Dispatch, r: u64)
    requires
        d.dom().finite(),
        !d.contains_key(t),
    ensures
        pending_in(d.insert(t, x), r) == (if x.request == r {
            pending_in(d, r).insert(t)
        } else {
            pending_in(d, r)
        }),
        pending_in(d.insert(t, x), r).len() == pending_in(d, r).len() + (if x.request == r {
            1int
        } else {
            0int
        }),
{
    lemma_pending_finite(d, r);
    if x.request == r {
        assert(pending_in(d.insert(t, x), r) =~= pending_in(d, r).insert(t));
    } else {
        assert(pending_in(d.insert(t, x), r) =~= pending_in(d, r));
    }
}

proof fn lemma_pending_remove(d: Map<u64, Dispatch>, t: u64, r: u64)
    requires
        d.dom().finite(),
        d.contains_key(t),
    ensures
        pending_in(d.remove(t), r) == (if d[t].request == r {
            pending_in(d, r).remove(t)
        } else {
            pending_in(d, r)
        }),
        pending_in(d.remove(t), r).len() == pending_in(d, r).len() - (if d[t].request == r {
            1int
        } else {
            0int
        }),
{
    lemma_pending_finite(d, r);
    if d[t].request == r {
        assert(pending_in(d.remove(t), r) =~= pending_in(d, r).remove(t));
    } else {
        assert(pending_in(d.remove(t), r) =~= pending_in(d, r));
    }
}

proof fn lemma_ending_keeps_wf(m: RunnerModel, t: u64, accepted: bool)
    requires
        m.wf(),
        m.dispatched.contains_key(t),
    ensures
        (RunnerModel {
            dispatched: m.dispatched.remove(t),
            requests: m.requests_after_ending(t, accepted),
            ..m
        }).wf(),
        (RunnerModel {
            dispatched: m.dispatched.remove(t),
            awaiting: m.awaiting.remove(t),
            requests: m.requests_after_ending(t, accepted),
            ..m
        }).wf(),
{
    let d = m.dispatched;
    let r = d[t].request;
    let d2 = d.remove(t);
    let q2 = m.requests_after_ending(t, accepted);
    assert(m.requests.contains_key(r));
    assert forall|x: u64| #[trigger] q2.contains_key(x) implies q2[x].outstanding > 0
        && q2[x].outstanding == pending_in(d2, x).len() by {
        lemma_pending_remove(d, t, x);
    }
    assert forall|u: u64| #[trigger] d2.contains_key(u) implies q2.contains_key(d2[u].request) by {
        let ru = d2[u].request;
        assert(m.requests.contains_key(ru));
        if ru == r && m.requests[r].outstanding <= 1 {
            lemma_pending_finite(d, r);
            let p = pending_in(d, r);
            assert(p.contains(t));
            assert(p.contains(u));
            assert(p.remove(t).contains(u));
            assert(p.remove(t).remove(u).len() == p.len() - 2);
        }
    }
}

/// Every transition of the runner keeps its model well formed.
pub proof fn lemma_transitions_keep_wf(
    m: RunnerModel,
    t: u64,
    accepted: bool,
    sync_group: u128,
    device: u128,
    devices: Seq<u128>,
)
    requires
        m.wf(),
    ensures
        m.after_answer(t, accepted).wf(),
        m.after_deadline(t).wf(),
        m.after_decision(t).wf(),
        m.next_ticket < u64::MAX ==> m.after_inbound(device, sync_group).wf(),
        m.can_dispatch(devices.len() as int) ==> m.after_join_request(sync_group, devices).wf(),
{
    if m.dispatched.contains_key(t) {
        lemma_ending_keeps_wf(m, t, accepted);
        lemma_ending_keeps_wf(m, t, false);
    } else {
        assert(m.dispatched.remove(t) =~= m.dispatched);
    }
    if m.can_dispatch(devices.len() as int) {
        lemma_join_request_keeps_wf(m, sync_group, devices);
    }
}

/// Fanning out to `devices` gives the new request exactly one pending
/// ticket per member, and leaves every other request's tickets alone.
proof fn lemma_join_request_keeps_wf(m: RunnerModel, sync_group: u128, devices: Seq<u128>)
    requires
        m.wf(),
        m.can_dispatch(devices.len() as int),
    ensures
        m.after_join_request(sync_group, devices).wf(),
{
    let req = m.next_request;
    let j = m.after_join_request(sync_group, devices);
    lemma_dispatched_with_counts(m, req, devices, devices.len() as int);
    assert(m.dispatched_with(req, devices.take(devices.len() as int)) =~= j.dispatched);
    assert forall|u: u64| #[trigger] j.dispatched.contains_key(u) implies j.requests.contains_key(
        j.dispatched[u].request,
    ) by {
        if m.dispatched.contains_key(u) {
            assert(m.requests.contains_key(m.dispatched[u].request));
        }
    }
    assert forall|x: u64| #[trigger] j.requests.contains_key(x) implies j.requests[x].outstanding
        > 0 && j.requests[x].outstanding == pending_in(j.dispatched, x).len() by {
        if x != req {
            assert(m.requests.contains_key(x));
        }
    }
}

/// The counts of pending tickets while the first `i` members are dispatched.
proof fn lemma_dispatched_with_counts(m: RunnerModel, req: u64, devices: Seq<u128>, i: int)
    requires
        m.wf(),
        req == m.next_request,
        m.can_dispatch(devices.len() as int),
        0 <= i <= devices.len(),
    ensures
        ({
            let d = m.dispatched_with(req, devices.take(i));
            &&& d.dom().finite()
            &&& pending_in(d, req).len() == i
            &&& forall|x: u64| x != req ==> #[trigger] pending_in(d, x) == pending_in(m.dispatched, x)
        }),
    decreases i,
{
    let d = m.dispatched_with(req, devices.take(i));
    if i == 0 {
        assert(d =~= m.dispatched);
        assert(pending_in(d, req) =~= Set::empty()) by {
            assert forall|u: u64| !#[trigger] pending_in(d, req).contains(u) by {
                if m.dispatched.contains_key(u) {
                    assert(m.requests.contains_key(m.dispatched[u].request));
                }
            }
        }
    } else {
        lemma_dispatched_with_counts(m, req, devices, i - 1);
        let d0 = m.dispatched_with(req, devices.take(i - 1));
        let t = (m.next_ticket + i - 1) as u64;
        let x = Dispatch { request: req, device: devices[i - 1] };
        assert(d =~= d0.insert(t, x));
        assert forall|y: u64| y != req implies #[trigger] pending_in(d, y) == pending_in(
            m.dispatched,
            y,
        ) by {
            lemma_pending_insert(d0, t, x, y);
        }
        lemma_pending_insert(d0, t, x, req);
    }
}

/// Once a logical request has succeeded it stays succeeded, whatever the
/// runner handles next.
pub proof fn lemma_success_is_permanent(
    m: RunnerModel,
    r: u64,
    t: u64,
    accepted: bool,
    sync_group: u128,
    device: u128,
    devices: Seq<u128>,
)
    requires
        m.wf(),
        m.requests.contains_key(r),
        m.requests[r].succeeded,
    ensures
        m.after_answer(t, accepted).requests.contains_key(r) ==> m.after_answer(
            t,
            accepted,
        ).requests[r].succeeded,
        m.after_deadline(t).requests.contains_key(r) ==> m.after_deadline(t).requests[r].succeeded,
        m.after_decision(t).requests[r].succeeded,
        m.after_inbound(device, sync_group).requests[r].succeeded,
        m.can_dispatch(devices.len() as int) ==> m.after_join_request(
            sync_group,
            devices,
        ).requests[r].succeeded,
{
}

/// A logical request that has succeeded is never fulfilled again: every
/// later answer for it is discarded.
pub proof fn lemma_succeeded_request_not_fulfilled_again(
    m: RunnerModel,
    r: u64,
    t: u64,
    answer: PeerAnswer,
)
    requires
        m.wf(),
        m.requests.contains_key(r),
        m.requests[r].succeeded,
        m.dispatched.contains_key(t),
        m.dispatched[t].request == r,
    ensures
        m.answer_action(t, answer) is Discard,
{
}

/// The first acceptance of a logical request fulfils its reply channel with
/// the accepting peer's library, and from then on no answer fulfils it again.
pub proof fn lemma_first_acceptance_fulfils_once(
    m: RunnerModel,
    t: u64,
    answer: PeerAnswer,
    later: u64,
    later_answer: PeerAnswer,
)
    requires
        m.wf(),
        m.dispatched.contains_key(t),
        !m.requests[m.dispatched[t].request].succeeded,
        answer is Accepted,
    ensures
        ({
            let r = m.dispatched[t].request;
            let m1 = m.after_answer(t, true);
            &&& m.answer_action(t, answer) matches ResponseAction::Fulfil { request, args, .. }
                && request == r && args == answer->library
            &&& m1.wf()
            &&& m1.requests.contains_key(r) ==> m1.requests[r].succeeded
            &&& !(m1.answer_action(later, later_answer) matches ResponseAction::Fulfil {
                request,
                ..
            } && request == r)
        }),
{
    let r = m.dispatched[t].request;
    let m1 = m.after_answer(t, true);
    lemma_transitions_keep_wf(m, t, true, 0, 0, Seq::empty());
    assert(m.requests.contains_key(r));
    if m1.dispatched.contains_key(later) && m1.dispatched[later].request == r {
        assert(m1.requests.contains_key(r));
        lemma_succeeded_request_not_fulfilled_again(m1, r, later, later_answer);
    }
}

/// A refusal or fault of one member, on a request that has not succeeded,
/// is reported to the user and leaves the request unfulfilled; so is a
/// member's timeout, which reports that the request did not succeed.
pub proof fn lemma_failures_are_reported(m: RunnerModel, t: u64, answer: PeerAnswer)
    requires
        m.wf(),
        m.dispatched.contains_key(t),
        !m.requests[m.dispatched[t].request].succeeded,
        !(answer is Accepted),
    ensures
        ({
            let r = m.dispatched[t].request;
            &&& m.answer_action(t, answer) == ResponseAction::Notify(
                NotifyUser::ReceivedJoinSyncGroupResponse {
                    response: RunnerModel::reported(answer),
                    sync_group: m.requests[r].sync_group,
                },
            )
            &&& m.after_answer(t, false).requests.contains_key(r) ==> !m.after_answer(
                t,
                false,
            ).requests[r].succeeded
            &&& m.deadline_notice(t) == Some(
                NotifyUser::TimedOutJoinRequest { device: m.dispatched[t].device, succeeded: false },
            )
            &&& m.after_deadline(t).requests.contains_key(r) ==> !m.after_deadline(
                t,
            ).requests[r].succeeded
        }),
{
}

/// A user's decision delivered twice for one ticket acts only the first
/// time: the second finds no pending request and leaves the state as it is.
pub proof fn lemma_decision_is_idempotent(m: RunnerModel, t: u64)
    requires
        m.wf(),
    ensures
        !m.after_decision(t).awaiting.contains_key(t),
        m.after_decision(t).after_decision(t) == m.after_decision(t),
{
    assert(m.after_decision(t).awaiting.remove(t) =~= m.after_decision(t).awaiting);
}

/// An exchange that has ended stays silent: its ticket is never issued
/// again, and an answer, deadline or decision on it changes nothing and
/// reports nothing.
pub proof fn lemma_retired_ticket_is_silent(
    m: RunnerModel,
    t: u64,
    other: u64,
    answer: PeerAnswer,
    accepted: bool,
    sync_group: u128,
    device: u128,
    devices: Seq<u128>,
)
    requires
        m.wf(),
        m.retired(t),
    ensures
        m.answer_action(t, answer) is Discard,
        m.after_answer(t, accepted) == m,
        m.deadline_notice(t) is None,
        m.after_deadline(t) == m,
        m.after_decision(t) == m,
        m.after_answer(other, accepted).retired(t),
        m.after_deadline(other).retired(t),
        m.after_decision(other).retired(t),
        m.next_ticket < u64::MAX ==> m.after_inbound(device, sync_group).retired(t),
        m.can_dispatch(devices.len() as int) ==> m.after_join_request(sync_group, devices).retired(
            t,
        ),
{
    assert(m.dispatched.remove(t) =~= m.dispatched);
    assert(m.awaiting.remove(t) =~= m.awaiting);
}

/// Each way an exchange ends retires its ticket.
pub proof fn lemma_resolution_retires(m: RunnerModel, t: u64, accepted: bool)
    requires
        m.wf(),
        m.dispatched.contains_key(t) || m.awaiting.contains_key(t),
    ensures
        m.dispatched.contains_key(t) ==> m.after_answer(t, accepted).retired(t),
        m.after_deadline(t).retired(t),
        m.awaiting.contains_key(t) ==> m.after_decision(t).retired(t),
{
}

impl Runner {
    /// Counts one exchange of logical request `request` as ended, forgetting
    /// the request when it was the last; returns the request as it stood.
    fn end_exchange(&mut self, request: u64, accepted: bool) -> (q: JoinRequestState)
        requires
            old(self).requests@.contains_key(request),
        ensures
            q == old(self).requests@[request],
            final(self).requests@ == (if q.outstanding <= 1 {
                old(self).requests@.remove(request)
            } else {
                old(self).requests@.insert(
                    request,
                    JoinRequestState {
                        sync_group: q.sync_group,
                        succeeded: q.succeeded || accepted,
                        outstanding: (q.outstanding - 1) as u64,
                    },
                )
            }),
            final(self).dispatched@ == old(self).dispatched@,
            final(self).awaiting@ == old(self).awaiting@,
            final(self).next_ticket == old(self).next_ticket,
            final(self).next_request == old(self).next_request,
    {
        let q = *self.requests.get(&request).unwrap();
        if q.outstanding <= 1 {
            self.requests.remove(&request);
        } else {
            self.requests.insert(
                request,
                JoinRequestState {
                    sync_group: q.sync_group,
                    succeeded: q.succeeded || accepted,
                    outstanding: q.outstanding - 1,
                },
            );
        }
        q
    }

    /// Whether logical request `request` still has an exchange outstanding.
    pub fn is_open(&self, request: u64) -> (r: bool)
        ensures
            r == self@.requests.contains_key(request),
    {
        self.requests.contains_key(&request)
    }

    /// A runner with no exchange in flight.
    pub fn new() -> (r: Runner)
        ensures
            r@.wf(),
            r@.dispatched.is_empty(),
            r@.awaiting.is_empty(),
            r@.requests.is_empty(),
            r@.next_ticket == 0,
            r@.next_request == 0,
    {
        let r = Runner {
            dispatched: HashMap::new(),
            awaiting: HashMap::new(),
            requests: HashMap::new(),
            next_ticket: 0,
            next_request: 0,
        };
        assert(r@.dispatched =~= Map::empty());
        assert(r@.awaiting =~= Map::empty());
        assert(r@.requests =~= Map::empty());
        r
    }

    /// Fans one join request out to every member of the group, each member
    /// tracked by its own ticket; all of them share the returned request id.
    pub fn request_join_sync_group(&mut self, sync_group: u128, devices_in_group: &Vec<u128>) -> (r:
        Result<JoinDispatch, RunnerError>)
        requires
            old(self)@.wf(),
        ensures
            final(self)@.wf(),
            match r {
                Ok(d) => {
                    &&& old(self)@.can_dispatch(devices_in_group@.len() as int)
                    &&& final(self)@ == old(self)@.after_join_request(sync_group, devices_in_group@)
                    &&& d.request == old(self)@.next_request
                    &&& d.dispatches@.len() == devices_in_group@.len()
                    &&& forall|i: int|
                        0 <= i < d.dispatches@.len() ==> #[trigger] d.dispatches@[i] == (
                        Ticket((old(self)@.next_ticket + i) as u64),
                        devices_in_group@[i],
                    )
                },
                Err(e) => {
                    &&& !old(self)@.can_dispatch(devices_in_group@.len() as int)
                    &&& e == RunnerError::TicketsExhausted
                    &&& final(self)@ == old(self)@
                },
            },
    {
        let n = devices_in_group.len();
        if self.next_request == u64::MAX || self.next_ticket > u64::MAX - n as u64 {
            return Err(RunnerError::TicketsExhausted);
        }
        let ghost m0 = self@;
        let request = self.next_request;
        let first = self.next_ticket;
        let mut dispatches: Vec<(Ticket, u128)> = Vec::new();
        let mut i: usize = 0;
        while i < n
            invariant
                m0.wf(),
                n == devices_in_group@.len(),
                first == m0.next_ticket,
                request == m0.next_request,
                first + n <= u64::MAX,
                i <= n,
                self.requests@ == m0.requests,
                self.awaiting@ == m0.awaiting,
                self.next_ticket == m0.next_ticket,
                self.next_request == m0.next_request,
                self.dispatched@ == m0.dispatched_with(request, devices_in_group@.take(i as int)),
                dispatches@.len() == i,
                forall|j: int|
                    0 <= j < i ==> #[trigger] dispatches@[j] == (
                        Ticket((first + j) as u64),
                        devices_in_group@[j],
                    ),
            decreases n - i,
        {
            let device = devices_in_group[i];
            let t = first + i as u64;
            self.dispatched.insert(t, Dispatch { request, device });
            dispatches.push((Ticket(t), device));
            proof {
                assert(self.dispatched@ =~= m0.dispatched_with(
                    request,
                    devices_in_group@.take(i + 1),
                ));
            }
            i = i + 1;
        }
        if n > 0 {
            self.requests.insert(
                request,
                JoinRequestState { sync_group, succeeded: false, outstanding: n as u64 },
            );
        }
        self.next_ticket = first + n as u64;
        self.next_request = request + 1;
        proof {
            lemma_transitions_keep_wf(m0, 0, false, sync_group, 0, devices_in_group@);
            assert(devices_in_group@.take(n as int) =~= devices_in_group@);
            assert(self@.requests =~= m0.after_join_request(sync_group, devices_in_group@).requests);
        }
        Ok(JoinDispatch { request, dispatches })
    }

    /// Handles a peer's answer on `ticket`. The first acceptance of a logical
    /// request fulfils it; answers for unknown tickets, or for requests that
    /// already succeeded, are discarded; refusals and faults are reported.
    pub fn on_peer_response(&mut self, ticket: Ticket, answer: PeerAnswer) -> (r: ResponseAction)
        requires
            old(self)@.wf(),
        ensures
            final(self)@.wf(),
            final(self)@ == old(self)@.after_answer(ticket.0, answer is Accepted),
            r == old(self)@.answer_action(ticket.0, answer),
    {
        proof {
            lemma_transitions_keep_wf(old(self)@, ticket.0, answer is Accepted, 0, 0, Seq::empty());
        }
        let t = ticket.0;
        let d = match self.dispatched.remove(&t) {
            Some(d) => d,
            None => {
                proof {
                    assert(self@.dispatched =~= old(self)@.dispatched);
                }
                return ResponseAction::Discard;
            },
        };
        proof {
            assert(old(self)@.requests.contains_key(d.request));
        }
        let req = self.end_exchange(d.request, matches!(answer, PeerAnswer::Accepted { .. }));
        if req.succeeded {
            return ResponseAction::Discard;
        }
        match answer {
            PeerAnswer::Accepted { authorizor_device, library } => {
                ResponseAction::Fulfil {
                    request: d.request,
                    args: library,
                    notify: NotifyUser::ReceivedJoinSyncGroupResponse {
                        response: JoinSyncGroupResponse::Accepted { authorizor_device },
                        sync_group: req.sync_group,
                    },
                }
            },
            PeerAnswer::Failed(e) => ResponseAction::Notify(
                NotifyUser::ReceivedJoinSyncGroupResponse {
                    response: JoinSyncGroupResponse::Failed(e),
                    sync_group: req.sync_group,
                },
            ),
            PeerAnswer::CriticalError => ResponseAction::Notify(
                NotifyUser::ReceivedJoinSyncGroupResponse {
                    response: JoinSyncGroupResponse::CriticalError,
                    sync_group: req.sync_group,
                },
            ),
        }
    }

    /// Ends the exchange of `ticket` once its deadline has passed, reporting
    /// the timed-out device and whether its logical request succeeded through
    /// another member. An unknown ticket changes nothing.
    pub fn on_deadline(&mut self, ticket: Ticket) -> (r: Option<NotifyUser>)
        requires
            old(self)@.wf(),
        ensures
            final(self)@.wf(),
            final(self)@ == old(self)@.after_deadline(ticket.0),
            r == old(self)@.deadline_notice(ticket.0),
    {
        proof {
            lemma_transitions_keep_wf(old(self)@, ticket.0, false, 0, 0, Seq::empty());
        }
        let t = ticket.0;
        match self.dispatched.remove(&t) {
            Some(d) => {
                proof {
                    assert(old(self)@.requests.contains_key(d.request));
                }
                let succeeded = self.end_exchange(d.request, false).succeeded;
                proof {
                    assert(!old(self)@.awaiting.contains_key(t));
                    assert(self@.awaiting.remove(t) =~= self@.awaiting);
                }
                Some(NotifyUser::TimedOutJoinRequest { device: d.device, succeeded })
            },
            None => {
                proof {
                    assert(self@.dispatched.remove(t) =~= self@.dispatched);
                }
                match self.awaiting.remove(&t) {
                    Some(p) => Some(
                        NotifyUser::TimedOutJoinRequest {
                            device: p.asking_device,
                            succeeded: false,
                        },
                    ),
                    None => {
                        proof {
                            assert(self@.awaiting.remove(t) =~= self@.awaiting);
                        }
                        None
                    },
                }
            },
        }
    }

    /// Records a request received from `asking_device` under a fresh ticket
    /// and produces the prompt for the user.
    pub fn on_join_request(&mut self, asking_device: u128, sync_group: u128) -> (r: Result<
        NotifyUser,
        RunnerError,
    >)
        requires
            old(self)@.wf(),
        ensures
            final(self)@.wf(),
            match r {
                Ok(n) => {
                    &&& old(self)@.next_ticket < u64::MAX
                    &&& final(self)@ == old(self)@.after_inbound(asking_device, sync_group)
                    &&& n == NotifyUser::ReceivedJoinSyncGroupRequest {
                        ticket: Ticket(old(self)@.next_ticket),
                        asking_device,
                        sync_group,
                    }
                },
                Err(e) => {
                    &&& old(self)@.next_ticket == u64::MAX
                    &&& e == RunnerError::TicketsExhausted
                    &&& final(self)@ == old(self)@
                },
            },
    {
        if self.next_ticket == u64::MAX {
            return Err(RunnerError::TicketsExhausted);
        }
        proof {
            lemma_transitions_keep_wf(self@, 0, false, sync_group, asking_device, Seq::empty());
        }
        let t = self.next_ticket;
        self.awaiting.insert(t, PendingDecision { asking_device, sync_group });
        self.next_ticket = t + 1;
        Ok(NotifyUser::ReceivedJoinSyncGroupRequest { ticket: Ticket(t), asking_device, sync_group })
    }

    /// Matches the user's decision to the request it answers, by ticket
    /// alone. A decision on an unknown or already answered ticket is ignored.
    pub fn on_user_response(&mut self, response: UserResponse) -> (r: Option<PeerReply>)
        requires
            old(self)@.wf(),
        ensures
            final(self)@.wf(),
            ({
                let UserResponse::AcceptDeviceInSyncGroup { ticket, accepted } = response;
                &&& final(self)@ == old(self)@.after_decision(ticket.0)
                &&& match r {
                    Some(reply) => {
                        &&& old(self)@.awaiting.contains_key(ticket.0)
                        &&& reply.ticket == ticket
                        &&& reply.asking_device == old(self)@.awaiting[ticket.0].asking_device
                        &&& reply.sync_group == old(self)@.awaiting[ticket.0].sync_group
                        &&& reply.accepted == accepted
                    },
                    None => !old(self)@.awaiting.contains_key(ticket.0),
                }
            }),
    {
        let UserResponse::AcceptDeviceInSyncGroup { ticket, accepted } = response;
        proof {
            lemma_transitions_keep_wf(self@, ticket.0, false, 0, 0, Seq::empty());
        }
        match self.awaiting.remove(&ticket.0) {
            Some(p) => Some(
                PeerReply {
                    ticket,
                    asking_device: p.asking_device,
                    sync_group: p.sync_group,
                    accepted,
                },
            ),
            None => {
                proof {
                    assert(self@.awaiting.remove(ticket.0) =~= self@.awaiting);
                }
                None
            },
        }
    }
}

} // verus!
