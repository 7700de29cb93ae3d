//! Confirmation queue: proposals awaiting human review in assist mode.

use vstd::prelude::*;
use std::collections::VecDeque;
use crate::operator_proposals::{OperatorProposal, ProposalView, copy_proposal, copy_opt_string, opt_text};
use crate::symbolic_program::str_eq;
use crate::text::{copy_string, push_str};
use crate::clock::{random_uuid_text, now_rfc3339, age_seconds, rfc3339_age};

verus! {

broadcast use vstd::std_specs::vecdeque::group_vec_dequeue_axioms;

/// The status of a confirmation request.
#[derive(Debug, Clone, Copy, PartialEq, Eq, Structural)]
pub enum ConfirmationStatus {
    /// Waiting for a human operator to review.
    Pending,
    /// A human operator confirmed the proposal.
    Confirmed,
    /// A human operator denied the proposal.
    Denied,
    /// The request expired before anyone reviewed it.
    Expired,
}

/// A pending AI proposal awaiting human confirmation.
#[derive(Debug, Clone)]
pub struct ConfirmationRequest {
    /// Unique request id.
    pub id: String,
    /// The cycle number this proposal came from.
    pub cycle: u64,
    /// The original proposal from the LLM.
    pub proposal: OperatorProposal,
    /// The LLM's rationale (copied from the proposal).
    pub rationale: String,
    /// When the request was created (ISO-8601).
    pub requested_at: String,
    /// Current status.
    pub status: ConfirmationStatus,
    /// Session id of the human who confirmed or denied (if resolved).
    pub resolved_by: Option<String>,
    /// Display name of the resolver (if resolved).
    pub resolved_by_name: Option<String>,
    /// When the request was resolved (if resolved).
    pub resolved_at: Option<String>,
    /// Denial reason if denied.
    pub denial_reason: Option<String>,
}

/// A request with its texts taken as character sequences.
pub struct RequestView {
    pub id: Seq<char>,
    pub cycle: u64,
    pub proposal: ProposalView,
    pub rationale: Seq<char>,
    pub requested_at: Seq<char>,
    pub status: ConfirmationStatus,
    pub resolved_by: Option<Seq<char>>,
    pub resolved_by_name: Option<Seq<char>>,
    pub resolved_at: Option<Seq<char>>,
    pub denial_reason: Option<Seq<char>>,
}

impl View for ConfirmationRequest {
    type V = RequestView;

    open spec fn view(&self) -> RequestView {
        RequestView {
            id: self.id@,
            cycle: self.cycle,
            proposal: self.proposal@,
            rationale: self.rationale@,
            requested_at: self.requested_at@,
            status: self.status,
            resolved_by: opt_text(self.resolved_by),
            resolved_by_name: opt_text(self.resolved_by_name),
            resolved_at: opt_text(self.resolved_at),
            denial_reason: opt_text(self.denial_reason),
        }
    }
}

impl ConfirmationRequest {
    /// Creates a pending confirmation request from a proposal, with a fresh
    /// id starting with "conf-" and the current time.
    pub fn new(cycle: u64, proposal: OperatorProposal) -> (r: Self)
        ensures
            r.id@.len() >= 5 && r.id@.subrange(0, 5) == "conf-"@,
            r.cycle == cycle,
            r@.proposal == proposal@,
            r.rationale@ == proposal.rationale@,
            r.status == ConfirmationStatus::Pending,
            r.resolved_by is None,
            r.resolved_by_name is None,
            r.resolved_at is None,
            r.denial_reason is None,
    {
        let rationale = copy_string(&proposal.rationale);
        let mut id = String::from_str("conf-");
        proof {
            reveal_strlit("conf-");
        }
        let u = random_uuid_text();
        push_str(&mut id, u.as_str());
        assert(id@.subrange(0, 5) =~= "conf-"@);
        ConfirmationRequest {
            id,
            cycle,
            proposal,
            rationale,
            requested_at: now_rfc3339(),
            status: ConfirmationStatus::Pending,
            resolved_by: None,
            resolved_by_name: None,
            resolved_at: None,
            denial_reason: None,
        }
    }

    /// Whether this request is still pending review.
    pub fn is_pending(&self) -> (b: bool)
        ensures
            b == (self.status == ConfirmationStatus::Pending),
    {
        self.status == ConfirmationStatus::Pending
    }
}

/// A copy of a request.
pub fn copy_request(r: &ConfirmationRequest) -> (c: ConfirmationRequest)
    ensures
        c@ == r@,
{
    ConfirmationRequest {
        id: copy_string(&r.id),
        cycle: r.cycle,
        proposal: copy_proposal(&r.proposal),
        rationale: copy_string(&r.rationale),
        requested_at: copy_string(&r.requested_at),
        status: r.status,
        resolved_by: copy_opt_string(&r.resolved_by),
        resolved_by_name: copy_opt_string(&r.resolved_by_name),
        resolved_at: copy_opt_string(&r.resolved_at),
        denial_reason: copy_opt_string(&r.denial_reason),
    }
}

/// Requests taken as views.
pub open spec fn requests_view(v: Seq<ConfirmationRequest>) -> Seq<RequestView> {
    v.map_values(|r: ConfirmationRequest| r@)
}

/// The position of the first request with this id; `q.len()` when none has it.
pub open spec fn first_with_id(q: Seq<RequestView>, id: Seq<char>) -> nat
    decreases q.len(),
{
    if q.len() == 0 {
        0
    } else if q[0].id == id {
        0
    } else {
        1 + first_with_id(q.drop_first(), id)
    }
}

/// `r` marked expired at time `stamp`.
pub open spec fn expired(r: RequestView, stamp: Seq<char>) -> RequestView {
    RequestView {
        id: r.id,
        cycle: r.cycle,
        proposal: r.proposal,
        rationale: r.rationale,
        requested_at: r.requested_at,
        status: ConfirmationStatus::Expired,
        resolved_by: r.resolved_by,
        resolved_by_name: r.resolved_by_name,
        resolved_at: Some(stamp),
        denial_reason: r.denial_reason,
    }
}

/// `r` resolved to `status` by `by` (display name `name`) at `stamp`; a
/// denial also records `reason`.
pub open spec fn resolved(
    r: RequestView,
    status: ConfirmationStatus,
    by: Seq<char>,
    name: Seq<char>,
    stamp: Seq<char>,
    reason: Option<Seq<char>>,
) -> RequestView {
    RequestView {
        id: r.id,
        cycle: r.cycle,
        proposal: r.proposal,
        rationale: r.rationale,
        requested_at: r.requested_at,
        status,
        resolved_by: Some(by),
        resolved_by_name: Some(name),
        resolved_at: Some(stamp),
        denial_reason: if status == ConfirmationStatus::Denied { reason } else { r.denial_reason },
    }
}

/// Resolving the request `id`: the queue after, and the resolved request;
/// nothing changes when no request has the id or the first one that has it
/// is no longer pending.
pub open spec fn resolve_spec(
    q: Seq<RequestView>,
    id: Seq<char>,
    status: ConfirmationStatus,
    by: Seq<char>,
    name: Seq<char>,
    stamp: Seq<char>,
    reason: Option<Seq<char>>,
) -> (Seq<RequestView>, Option<RequestView>) {
    let i = first_with_id(q, id) as int;
    if i >= q.len() || q[i].status != ConfirmationStatus::Pending {
        (q, None)
    } else {
        let r = resolved(q[i], status, by, name, stamp, reason);
        (q.update(i, r), Some(r))
    }
}

/// Drops the expired requests at the front of the queue.
pub open spec fn drop_expired_front(q: Seq<RequestView>) -> Seq<RequestView>
    decreases q.len(),
{
    if q.len() > 0 && q[0].status == ConfirmationStatus::Expired {
        drop_expired_front(q.drop_first())
    } else {
        q
    }
}

/// The position of the oldest pending request; `q.len()` when none is.
pub open spec fn first_pending(q: Seq<RequestView>) -> nat
    decreases q.len(),
{
    if q.len() == 0 {
        0
    } else if q[0].status == ConfirmationStatus::Pending {
        0
    } else {
        1 + first_pending(q.drop_first())
    }
}

/// Enqueuing `x` into a queue of capacity `cap`: when the queue is full, its
/// oldest pending request expires and leaves to make room, and the expired
/// requests at the front leave too; then `x` joins at the back.
pub open spec fn enqueue_spec(q: Seq<RequestView>, cap: nat, x: RequestView) -> Seq<RequestView> {
    if q.len() >= cap {
        let i = first_pending(q) as int;
        let q1 = if i < q.len() {
            q.remove(i)
        } else {
            q
        };
        drop_expired_front(q1).push(x)
    } else {
        q.push(x)
    }
}

proof fn lemma_first_pending_at(q: Seq<RequestView>, i: int)
    requires
        0 <= i <= q.len(),
        forall|j: int| 0 <= j < i ==> (#[trigger] q[j]).status != ConfirmationStatus::Pending,
        i < q.len() ==> q[i].status == ConfirmationStatus::Pending,
    ensures
        first_pending(q) == i,
    decreases i,
{
    if i > 0 {
        assert forall|j: int| 0 <= j < i - 1 implies (#[trigger] q.drop_first()[j]).status
            != ConfirmationStatus::Pending by {
            assert(q.drop_first()[j] == q[j + 1]);
        }
        assert(q[0].status != ConfirmationStatus::Pending);
        lemma_first_pending_at(q.drop_first(), i - 1);
    }
}

/// The pending requests, in order.
pub open spec fn pending_of(q: Seq<RequestView>) -> Seq<RequestView>
    decreases q.len(),
{
    if q.len() == 0 {
        Seq::empty()
    } else if q.last().status == ConfirmationStatus::Pending {
        pending_of(q.drop_last()).push(q.last())
    } else {
        pending_of(q.drop_last())
    }
}

/// Whether the request is stale at `now`: pending, with a parsable time at
/// least `timeout` seconds old.
pub open spec fn is_stale(r: RequestView, timeout: i64, now: Seq<char>) -> bool {
    r.status == ConfirmationStatus::Pending && match rfc3339_age(r.requested_at, now) {
        Some(a) => a >= timeout,
        None => false,
    }
}

/// The number of stale requests.
pub open spec fn count_stale(q: Seq<RequestView>, timeout: i64, now: Seq<char>) -> nat
    decreases q.len(),
{
    if q.len() == 0 {
        0
    } else {
        count_stale(q.drop_last(), timeout, now) + if is_stale(q.last(), timeout, now) { 1nat } else { 0nat }
    }
}

/// Thread-free bounded queue of confirmation requests, oldest first.
pub struct ConfirmationQueue {
    requests: VecDeque<ConfirmationRequest>,
    capacity: usize,
}

impl ConfirmationQueue {
    /// The requests, oldest first.
    pub closed spec fn requests_v(&self) -> Seq<RequestView> {
        requests_view(self.requests@)
    }

    /// The capacity the queue was made with.
    pub closed spec fn capacity_view(&self) -> nat {
        self.capacity as nat
    }

    /// Creates a new queue with the given capacity.
    pub fn new(capacity: usize) -> (q: Self)
        ensures
            q.requests_v().len() == 0,
            q.capacity_view() == capacity,
    {
        let q = ConfirmationQueue { requests: VecDeque::new(), capacity };
        assert(q.requests_v() =~= Seq::<RequestView>::empty());
        q
    }

    /// Enqueues a pending request (see `enqueue_spec`): at capacity, the
    /// oldest pending request expires to make room. Returns the request's id.
    pub fn enqueue(&mut self, request: ConfirmationRequest) -> (id: String)
        ensures
            id@ == request.id@,
            final(self).requests_v() == enqueue_spec(old(self).requests_v(), old(self).capacity_view(), request@),
            final(self).capacity_view() == old(self).capacity_view(),
    {
        let id = copy_string(&request.id);
        let ghost q = self.requests_v();
        if self.requests.len() >= self.capacity {
            let mut i: usize = 0;
            while i < self.requests.len() && !self.requests[i].is_pending()
                invariant
                    i <= self.requests@.len(),
                    q == self.requests_v(),
                    forall|j: int| 0 <= j < i ==> (#[trigger] q[j]).status != ConfirmationStatus::Pending,
                decreases self.requests@.len() - i,
            {
                assert(q[i as int] == self.requests@[i as int]@);
                i = i + 1;
            }
            proof {
                if i < q.len() {
                    assert(q[i as int] == self.requests@[i as int]@);
                }
                lemma_first_pending_at(q, i as int);
            }
            let ghost q1 = if (i as int) < q.len() {
                q.remove(i as int)
            } else {
                q
            };
            if i < self.requests.len() {
                self.requests.remove(i);
            }
            assert(self.requests_v() =~= q1);
            while self.requests.len() > 0 && self.requests[0].status == ConfirmationStatus::Expired
                invariant
                    self.capacity == old(self).capacity,
                    drop_expired_front(q1) == drop_expired_front(self.requests_v()),
                decreases self.requests@.len(),
            {
                let ghost before = self.requests_v();
                self.requests.pop_front();
                assert(self.requests_v() =~= before.drop_first());
            }
            let ghost mid = self.requests_v();
            self.requests.push_back(request);
            assert(self.requests_v() =~= mid.push(request@));
        } else {
            self.requests.push_back(request);
            assert(self.requests_v() =~= q.push(request@));
        }
        id
    }

    /// All requests, newest first.
    pub fn all(&self) -> (r: Vec<ConfirmationRequest>)
        ensures
            requests_view(r@) == self.requests_v().reverse(),
    {
        let mut r: Vec<ConfirmationRequest> = Vec::new();
        let len = self.requests.len();
        let mut i: usize = 0;
        while i < len
            invariant
                len == self.requests@.len(),
                i <= len,
                r@.len() == i,
                forall|k: int| 0 <= k < i ==> (#[trigger] r@[k])@ == self.requests@[len - 1 - k]@,
            decreases len - i,
        {
            r.push(copy_request(&self.requests[len - 1 - i]));
            i = i + 1;
        }
        assert(requests_view(r@) =~= self.requests_v().reverse());
        r
    }

    /// The pending requests, oldest first.
    pub fn pending(&self) -> (r: Vec<ConfirmationRequest>)
        ensures
            requests_view(r@) == pending_of(self.requests_v()),
    {
        let ghost q = self.requests_v();
        let mut r: Vec<ConfirmationRequest> = Vec::new();
        let mut i: usize = 0;
        while i < self.requests.len()
            invariant
                i <= self.requests@.len(),
                q == self.requests_v(),
                requests_view(r@) == pending_of(q.subrange(0, i as int)),
            decreases self.requests@.len() - i,
        {
            let ghost pre = q.subrange(0, i as int);
            assert(q.subrange(0, i + 1).drop_last() =~= pre);
            assert(q.subrange(0, i + 1).last() == self.requests@[i as int]@);
            if self.requests[i].is_pending() {
                let ghost rv = r@;
                r.push(copy_request(&self.requests[i]));
                assert(requests_view(r@) =~= requests_view(rv).push(self.requests@[i as int]@));
            }
            i = i + 1;
        }
        assert(q.subrange(0, q.len() as int) =~= q);
        r
    }

    /// The position of the first request with this id, or the length.
    fn position(&self, id: &str) -> (i: usize)
        ensures
            i == first_with_id(self.requests_v(), id@),
            i <= self.requests@.len(),
    {
        let ghost q = self.requests_v();
        let mut i: usize = 0;
        assert(q.subrange(0, q.len() as int) =~= q);
        while i < self.requests.len()
            invariant
                i <= self.requests@.len(),
                q == self.requests_v(),
                first_with_id(q, id@) == i + first_with_id(q.subrange(i as int, q.len() as int), id@),
            decreases self.requests@.len() - i,
        {
            let ghost rest = q.subrange(i as int, q.len() as int);
            assert(rest[0] == q[i as int]);
            if str_eq(self.requests[i].id.as_str(), id) {
                return i;
            }
            assert(rest.drop_first() =~= q.subrange(i + 1, q.len() as int));
            i = i + 1;
        }
        i
    }

    /// The first request with this id.
    pub fn get(&self, id: &str) -> (r: Option<ConfirmationRequest>)
        ensures
            ({
                let i = first_with_id(self.requests_v(), id@) as int;
                match r {
                    Some(x) => i < self.requests_v().len() && x@ == self.requests_v()[i],
                    None => i >= self.requests_v().len(),
                }
            }),
    {
        let i = self.position(id);
        if i < self.requests.len() {
            Some(copy_request(&self.requests[i]))
        } else {
            None
        }
    }

    /// Resolves the first request with this id at time `now` (see
    /// `resolve_spec`).
    fn resolve_at(
        &mut self,
        id: &str,
        status: ConfirmationStatus,
        by: &str,
        name: &str,
        reason: Option<String>,
        now: &str,
    ) -> (r: Option<ConfirmationRequest>)
        ensures
            ({
                let (q, x) = resolve_spec(old(self).requests_v(), id@, status, by@, name@, now@, opt_text(reason));
                &&& final(self).requests_v() == q
                &&& match r {
                    Some(c) => x == Some(c@),
                    None => x is None,
                }
            }),
            final(self).capacity_view() == old(self).capacity_view(),
    {
        let ghost q = self.requests_v();
        let i = self.position(id);
        if i >= self.requests.len() || !self.requests[i].is_pending() {
            return None;
        }
        let f = &self.requests[i];
        let denial = if status == ConfirmationStatus::Denied {
            reason
        } else {
            copy_opt_string(&f.denial_reason)
        };
        let c = ConfirmationRequest {
            id: copy_string(&f.id),
            cycle: f.cycle,
            proposal: copy_proposal(&f.proposal),
            rationale: copy_string(&f.rationale),
            requested_at: copy_string(&f.requested_at),
            status,
            resolved_by: Some(String::from_str(by)),
            resolved_by_name: Some(String::from_str(name)),
            resolved_at: Some(String::from_str(now)),
            denial_reason: denial,
        };
        let out = copy_request(&c);
        self.requests.remove(i);
        self.requests.insert(i, c);
        assert(self.requests_v() =~= q.update(i as int, out@));
        Some(out)
    }

    /// Confirms a pending request; `None`, with nothing changed, when no
    /// request has the id or it is no longer pending.
    pub fn confirm(&mut self, id: &str, resolver_session_id: &str, resolver_name: &str) -> (r: Option<
        ConfirmationRequest,
    >)
        ensures
            exists|now: Seq<char>|
                {
                    let (q, x) = #[trigger] resolve_spec(
                        old(self).requests_v(),
                        id@,
                        ConfirmationStatus::Confirmed,
                        resolver_session_id@,
                        resolver_name@,
                        now,
                        None,
                    );
                    &&& final(self).requests_v() == q
                    &&& match r {
                        Some(c) => x == Some(c@),
                        None => x is None,
                    }
                },
            final(self).capacity_view() == old(self).capacity_view(),
    {
        let now = now_rfc3339();
        self.resolve_at(id, ConfirmationStatus::Confirmed, resolver_session_id, resolver_name, None, now.as_str())
    }

    /// Denies a pending request, recording the reason; `None`, with nothing
    /// changed, when no request has the id or it is no longer pending.
    pub fn deny(&mut self, id: &str, resolver_session_id: &str, resolver_name: &str, reason: Option<String>) -> (r:
        Option<ConfirmationRequest>)
        ensures
            exists|now: Seq<char>|
                {
                    let (q, x) = #[trigger] resolve_spec(
                        old(self).requests_v(),
                        id@,
                        ConfirmationStatus::Denied,
                        resolver_session_id@,
                        resolver_name@,
                        now,
                        opt_text(reason),
                    );
                    &&& final(self).requests_v() == q
                    &&& match r {
                        Some(c) => x == Some(c@),
                        None => x is None,
                    }
                },
            final(self).capacity_view() == old(self).capacity_view(),
    {
        let now = now_rfc3339();
        self.resolve_at(id, ConfirmationStatus::Denied, resolver_session_id, resolver_name, reason, now.as_str())
    }

    /// Expires the requests stale at `now` (see `is_stale`), stamping them
    /// with `now`; returns how many expired.
    pub fn expire_stale_at(&mut self, timeout_secs: i64, now: &str) -> (n: usize)
        ensures
            final(self).requests_v().len() == old(self).requests_v().len(),
            forall|i: int|
                0 <= i < old(self).requests_v().len() ==> (#[trigger] final(self).requests_v()[i]) == if is_stale(
                    old(self).requests_v()[i],
                    timeout_secs,
                    now@,
                ) {
                    expired(old(self).requests_v()[i], now@)
                } else {
                    old(self).requests_v()[i]
                },
            n == count_stale(old(self).requests_v(), timeout_secs, now@),
            final(self).capacity_view() == old(self).capacity_view(),
    {
        let ghost q = self.requests_v();
        let len = self.requests.len();
        let mut count: usize = 0;
        let mut i: usize = 0;
        while i < len
            invariant
                len == q.len(),
                i <= len,
                self.requests@.len() == len,
                self.capacity == old(self).capacity,
                q == old(self).requests_v(),
                count == count_stale(q.subrange(0, i as int), timeout_secs, now@),
                count <= i,
                forall|k: int|
                    0 <= k < len ==> (#[trigger] self.requests_v()[k]) == if k < i && is_stale(q[k], timeout_secs, now@) {
                        expired(q[k], now@)
                    } else {
                        q[k]
                    },
            decreases len - i,
        {
            let ghost pre = q.subrange(0, i as int);
            assert(q.subrange(0, i + 1).drop_last() =~= pre);
            assert(q.subrange(0, i + 1).last() == q[i as int]);
            assert(self.requests_v()[i as int] == q[i as int]);
            if self.requests[i].is_pending() {
                let age = age_seconds(self.requests[i].requested_at.as_str(), now);
                let stale = match age {
                    Some(a) => a >= timeout_secs,
                    None => false,
                };
                if stale {
                    let f = &self.requests[i];
                    let e = ConfirmationRequest {
                        id: copy_string(&f.id),
                        cycle: f.cycle,
                        proposal: copy_proposal(&f.proposal),
                        rationale: copy_string(&f.rationale),
                        requested_at: copy_string(&f.requested_at),
                        status: ConfirmationStatus::Expired,
                        resolved_by: copy_opt_string(&f.resolved_by),
                        resolved_by_name: copy_opt_string(&f.resolved_by_name),
                        resolved_at: Some(String::from_str(now)),
                        denial_reason: copy_opt_string(&f.denial_reason),
                    };
                    let ghost cur = self.requests_v();
                    self.requests.remove(i);
                    self.requests.insert(i, e);
                    assert(self.requests_v() =~= cur.update(i as int, expired(q[i as int], now@)));
                    count = count + 1;
                }
            }
            i = i + 1;
        }
        assert(q.subrange(0, len as int) =~= q);
        count
    }

    /// Expires the requests stale at the current time (see `is_stale`);
    /// returns how many expired.
    pub fn expire_stale(&mut self, timeout_secs: i64) -> (n: usize)
        ensures
            exists|now: Seq<char>|
                {
                    &&& final(self).requests_v().len() == old(self).requests_v().len()
                    &&& forall|i: int|
                        0 <= i < old(self).requests_v().len() ==> (#[trigger] final(self).requests_v()[i]) == if is_stale(
                            old(self).requests_v()[i],
                            timeout_secs,
                            now,
                        ) {
                            expired(old(self).requests_v()[i], now)
                        } else {
                            old(self).requests_v()[i]
                        }
                    &&& n == count_stale(old(self).requests_v(), timeout_secs, now)
                },
            final(self).capacity_view() == old(self).capacity_view(),
    {
        let now = now_rfc3339();
        self.expire_stale_at(timeout_secs, now.as_str())
    }

    /// The number of pending requests.
    pub fn pending_count(&self) -> (n: usize)
        ensures
            n == pending_of(self.requests_v()).len(),
    {
        let ghost q = self.requests_v();
        let mut n: usize = 0;
        let mut i: usize = 0;
        while i < self.requests.len()
            invariant
                i <= self.requests@.len(),
                q == self.requests_v(),
                n == pending_of(q.subrange(0, i as int)).len(),
                n <= i,
            decreases self.requests@.len() - i,
        {
            assert(q.subrange(0, i + 1).drop_last() =~= q.subrange(0, i as int));
            assert(q.subrange(0, i + 1).last() == self.requests@[i as int]@);
            if self.requests[i].is_pending() {
                n = n + 1;
            }
            i = i + 1;
        }
        assert(q.subrange(0, q.len() as int) =~= q);
        n
    }

    /// The total number of requests (pending and resolved).
    pub fn len(&self) -> (n: usize)
        ensures
            n == self.requests_v().len(),
    {
        self.requests.len()
    }

    /// Removes the resolved (confirmed, denied, expired) requests; returns
    /// how many left.
    pub fn clear_resolved(&mut self) -> (n: usize)
        ensures
            final(self).requests_v() == pending_of(old(self).requests_v()),
            n == old(self).requests_v().len() - pending_of(old(self).requests_v()).len(),
            final(self).capacity_view() == old(self).capacity_view(),
    {
        let ghost q = self.requests_v();
        let before = self.requests.len();
        let mut kept: VecDeque<ConfirmationRequest> = VecDeque::new();
        let mut rest: VecDeque<ConfirmationRequest> = VecDeque::new();
        std::mem::swap(&mut rest, &mut self.requests);
        assert(requests_view(rest@) == q);
        let ghost mut taken: int = 0;
        while rest.len() > 0
            invariant
                0 <= taken <= q.len(),
                rest@.len() == q.len() - taken,
                requests_view(rest@) == q.subrange(taken, q.len() as int),
                requests_view(kept@) == pending_of(q.subrange(0, taken)),
                kept@.len() <= taken,
            decreases rest@.len(),
        {
            let ghost rv = rest@;
            let r = rest.pop_front().unwrap();
            proof {
                assert(rest@ =~= rv.subrange(1, rv.len() as int));
                assert forall|k: int| 0 <= k < rest@.len() implies requests_view(rest@)[k] == q[taken + 1 + k] by {
                    assert(requests_view(rest@)[k] == rest@[k]@);
                    assert(rest@[k] == rv[k + 1]);
                    assert(requests_view(rv)[k + 1] == rv[k + 1]@);
                    assert(q.subrange(taken, q.len() as int)[k + 1] == q[taken + 1 + k]);
                }
                assert(requests_view(rest@) =~= q.subrange(taken + 1, q.len() as int));
                assert(requests_view(rv)[0] == r@);
                assert(q.subrange(0, taken + 1).drop_last() =~= q.subrange(0, taken));
                assert(q.subrange(0, taken + 1).last() == r@);
            }
            if r.is_pending() {
                let ghost kv = kept@;
                kept.push_back(r);
                assert(requests_view(kept@) =~= requests_view(kv).push(r@));
            }
            proof {
                taken = taken + 1;
            }
        }
        assert(q.subrange(0, q.len() as int) =~= q);
        let n = kept.len();
        self.requests = kept;
        before - n
    }
}

/// A request is resolved at most once: once confirming or denying the
/// request `id` succeeds, a second confirmation or denial of it changes
/// nothing and returns nothing.
pub proof fn law_resolution_is_final(
    q: Seq<RequestView>,
    id: Seq<char>,
    first: ConfirmationStatus,
    second: ConfirmationStatus,
    by: Seq<char>,
    name: Seq<char>,
    by2: Seq<char>,
    name2: Seq<char>,
    stamp: Seq<char>,
    stamp2: Seq<char>,
    reason: Option<Seq<char>>,
    reason2: Option<Seq<char>>,
)
    requires
        first == ConfirmationStatus::Confirmed || first == ConfirmationStatus::Denied,
        resolve_spec(q, id, first, by, name, stamp, reason).1 is Some,
    ensures
        ({
            let q1 = resolve_spec(q, id, first, by, name, stamp, reason).0;
            resolve_spec(q1, id, second, by2, name2, stamp2, reason2) == (q1, None::<RequestView>)
        }),
{
    let i = first_with_id(q, id) as int;
    let q1 = resolve_spec(q, id, first, by, name, stamp, reason).0;
    lemma_first_with_id_update(q, id, i, q1[i]);
}

/// Replacing a request by one with the same id keeps where the id is first found.
proof fn lemma_first_with_id_update(q: Seq<RequestView>, id: Seq<char>, i: int, r: RequestView)
    requires
        0 <= i < q.len(),
        r.id == q[i].id,
    ensures
        first_with_id(q.update(i, r), id) == first_with_id(q, id),
    decreases q.len(),
{
    if q[0].id != id {
        if i > 0 {
            assert(q.update(i, r).drop_first() =~= q.drop_first().update(i - 1, r));
            lemma_first_with_id_update(q.drop_first(), id, i - 1, r);
        } else {
            assert(q.update(0, r).drop_first() =~= q.drop_first());
        }
    } else {
        assert(q.update(i, r)[0].id == id);
    }
}

/// Clearing resolved requests keeps exactly the pending ones, in order, and
/// leaves nothing more to clear.
pub proof fn law_clear_resolved_idempotent(q: Seq<RequestView>)
    ensures
        pending_of(pending_of(q)) == pending_of(q),
    decreases q.len(),
{
    if q.len() > 0 {
        law_clear_resolved_idempotent(q.drop_last());
        let p = pending_of(q.drop_last());
        if q.last().status == ConfirmationStatus::Pending {
            assert(p.push(q.last()).drop_last() =~= p);
        }
    }
}

/// The pending requests split at the front.
proof fn lemma_pending_front(s: Seq<RequestView>)
    requires
        s.len() > 0,
    ensures
        pending_of(s) == (if s[0].status == ConfirmationStatus::Pending {
            seq![s[0]]
        } else {
            Seq::empty()
        }) + pending_of(s.drop_first()),
    decreases s.len(),
{
    let d = s.drop_last();
    if s.len() == 1 {
        assert(d =~= Seq::<RequestView>::empty());
        assert(s.drop_first() =~= Seq::<RequestView>::empty());
        assert(s.last() == s[0]);
    } else {
        lemma_pending_front(d);
        assert(s.drop_first().drop_last() =~= d.drop_first());
        assert(s.drop_first().last() == s.last());
        assert(d[0] == s[0]);
        if s.last().status == ConfirmationStatus::Pending {
            assert(((if s[0].status == ConfirmationStatus::Pending {
                seq![s[0]]
            } else {
                Seq::empty()
            }) + pending_of(d.drop_first())).push(s.last()) =~= (if s[0].status == ConfirmationStatus::Pending {
                seq![s[0]]
            } else {
                Seq::empty()
            }) + pending_of(d.drop_first()).push(s.last()));
        }
    }
}

proof fn lemma_pending_drop_expired(s: Seq<RequestView>)
    ensures
        pending_of(drop_expired_front(s)) == pending_of(s),
        drop_expired_front(s).len() <= s.len(),
    decreases s.len(),
{
    if s.len() > 0 && s[0].status == ConfirmationStatus::Expired {
        lemma_pending_front(s);
        assert(Seq::<RequestView>::empty() + pending_of(s.drop_first()) =~= pending_of(s.drop_first()));
        lemma_pending_drop_expired(s.drop_first());
    }
}

proof fn lemma_pending_remove_first(q: Seq<RequestView>, i: int)
    requires
        0 <= i < q.len(),
        i == first_pending(q),
    ensures
        pending_of(q.remove(i)) == pending_of(q).drop_first(),
    decreases i,
{
    lemma_pending_front(q);
    if i == 0 {
        assert(q[0].status == ConfirmationStatus::Pending);
        assert(q.remove(0) =~= q.drop_first());
        assert((seq![q[0]] + pending_of(q.drop_first())).drop_first() =~= pending_of(q.drop_first()));
    } else {
        assert(q[0].status != ConfirmationStatus::Pending);
        let r = q.remove(i);
        assert(r[0] == q[0]);
        assert(r.drop_first() =~= q.drop_first().remove(i - 1));
        lemma_pending_remove_first(q.drop_first(), i - 1);
        lemma_pending_front(r);
        assert(Seq::<RequestView>::empty() + pending_of(r.drop_first()) =~= pending_of(r.drop_first()));
        assert(Seq::<RequestView>::empty() + pending_of(q.drop_first()) =~= pending_of(q.drop_first()));
    }
}

/// A full queue makes room for a new request by expiring its oldest
/// pending request: the queue stays within its capacity, the new request is
/// the newest, and the pending requests are the old ones but the oldest,
/// followed by the new one when it is pending.
pub proof fn law_full_queue_expires_oldest_pending(q: Seq<RequestView>, cap: nat, x: RequestView)
    requires
        q.len() == cap,
        first_pending(q) < q.len(),
    ensures
        enqueue_spec(q, cap, x).len() <= cap,
        enqueue_spec(q, cap, x).last() == x,
        pending_of(enqueue_spec(q, cap, x)) == if x.status == ConfirmationStatus::Pending {
            pending_of(q).drop_first().push(x)
        } else {
            pending_of(q).drop_first()
        },
{
    let i = first_pending(q) as int;
    let q1 = q.remove(i);
    lemma_pending_remove_first(q, i);
    lemma_pending_drop_expired(q1);
    let r = drop_expired_front(q1).push(x);
    assert(r.drop_last() =~= drop_expired_front(q1));
}

} // verus!
