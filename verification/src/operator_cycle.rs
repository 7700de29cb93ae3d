//! The decisions of one observe-think-act cycle: each proposal passes the
//! scope gate, then the autopilot guard; the review records the outcome.

use vstd::prelude::*;
use crate::operator_config::{OperatorActionScope, OperatorError, OperatorStatus, permits_spec};
use crate::operator_proposals::{
    OperatorProposal, ProposalView, OperatorAction, ActionView, action_for, param_lookup, copy_proposal,
    copy_opt_string, find_param, opt_text, proposals_view, proposal_to_action,
};
use crate::symbolic_program::str_eq;
use crate::text::{copy_string, push_str};
use crate::clock::{random_uuid_text, now_rfc3339};

verus! {

/// The class of action the autopilot guard evaluates.
#[derive(Debug, Clone, Copy, PartialEq, Eq, Structural)]
pub enum GuardActionClass {
    /// A policy simulation with this many commands.
    PolicySimulation { command_count: u16 },
}

/// The number of commands the guard is told a proposal carries: the length
/// of a policy simulation's `commands` array (at most 65535, 0 when absent
/// or not an array), and 1 for every other action.
pub open spec fn command_count_for(p: ProposalView) -> nat {
    if p.action_type == "policy_simulation"@ {
        match param_lookup(p.parameters, "commands"@) {
            Some(v) => match v.items {
                Some(n) => if n > 65535 { 65535 } else { n },
                None => 0,
            },
            None => 0,
        }
    } else {
        1
    }
}

/// Classifies a proposal for the autopilot guard.
pub fn classify_proposal(proposal: &OperatorProposal) -> (c: GuardActionClass)
    ensures
        c == (GuardActionClass::PolicySimulation { command_count: command_count_for(proposal@) as u16 }),
{
    if str_eq(proposal.action_type.as_str(), "policy_simulation") {
        let n: u16 = match find_param(&proposal.parameters, "commands") {
            Some(v) => match v.items {
                Some(k) => if k > 65535 { 65535 } else { k as u16 },
                None => 0,
            },
            None => 0,
        };
        GuardActionClass::PolicySimulation { command_count: n }
    } else {
        GuardActionClass::PolicySimulation { command_count: 1 }
    }
}

/// What the autopilot guard answered for one proposal.
#[derive(Debug, Clone, PartialEq, Eq)]
pub enum GuardVerdict {
    /// Allowed; a human must confirm first when `requires_confirmation`.
    Allow { requires_confirmation: bool },
    /// Denied, with the guard's reason.
    Deny { reason: String },
    /// The guard took a configuration update instead of a decision.
    ConfigUpdated,
}

/// A verdict with its text taken as a character sequence.
pub enum VerdictView {
    Allow { requires_confirmation: bool },
    Deny { reason: Seq<char> },
    ConfigUpdated,
}

impl View for GuardVerdict {
    type V = VerdictView;

    open spec fn view(&self) -> VerdictView {
        match self {
            GuardVerdict::Allow { requires_confirmation } => VerdictView::Allow {
                requires_confirmation: *requires_confirmation,
            },
            GuardVerdict::Deny { reason } => VerdictView::Deny { reason: reason@ },
            GuardVerdict::ConfigUpdated => VerdictView::ConfigUpdated,
        }
    }
}

/// The decision made for a proposal.
#[derive(Debug, Clone, PartialEq, Eq)]
pub struct OperatorDecision {
    /// The original proposal.
    pub proposal: OperatorProposal,
    /// Whether the action was allowed.
    pub allowed: bool,
    /// Denial reason if not allowed.
    pub denial_reason: Option<String>,
    /// Whether human confirmation is required.
    pub requires_confirmation: bool,
}

/// A decision with its texts taken as character sequences.
pub struct DecisionView {
    pub proposal: ProposalView,
    pub allowed: bool,
    pub denial_reason: Option<Seq<char>>,
    pub requires_confirmation: bool,
}

impl View for OperatorDecision {
    type V = DecisionView;

    open spec fn view(&self) -> DecisionView {
        DecisionView {
            proposal: self.proposal@,
            allowed: self.allowed,
            denial_reason: opt_text(self.denial_reason),
            requires_confirmation: self.requires_confirmation,
        }
    }
}

/// Decisions taken as views.
pub open spec fn decisions_view(v: Seq<OperatorDecision>) -> Seq<DecisionView> {
    v.map_values(|d: OperatorDecision| d@)
}

/// The denial of a proposal outside the configured scope.
pub open spec fn scope_denial(p: ProposalView) -> DecisionView {
    DecisionView {
        proposal: p,
        allowed: false,
        denial_reason: Some("out_of_scope"@),
        requires_confirmation: false,
    }
}

/// The decision for a proposal the guard answered: allowed only on an
/// allow that needs no confirmation; pending on an allow that does; denied
/// with the guard's reason, or as "config_updated", otherwise.
pub open spec fn verdict_decision(p: ProposalView, v: VerdictView) -> DecisionView {
    match v {
        VerdictView::Allow { requires_confirmation } => if requires_confirmation {
            DecisionView {
                proposal: p,
                allowed: false,
                denial_reason: Some("pending_confirmation"@),
                requires_confirmation: true,
            }
        } else {
            DecisionView { proposal: p, allowed: true, denial_reason: None, requires_confirmation: false }
        },
        VerdictView::Deny { reason } => DecisionView {
            proposal: p,
            allowed: false,
            denial_reason: Some(reason),
            requires_confirmation: false,
        },
        VerdictView::ConfigUpdated => DecisionView {
            proposal: p,
            allowed: false,
            denial_reason: Some("config_updated"@),
            requires_confirmation: false,
        },
    }
}

/// The number of allowed decisions.
pub open spec fn count_allowed(ds: Seq<DecisionView>) -> nat
    decreases ds.len(),
{
    if ds.len() == 0 {
        0
    } else {
        count_allowed(ds.drop_last()) + if ds.last().allowed { 1nat } else { 0nat }
    }
}

/// The number of decisions waiting for human confirmation.
pub open spec fn count_pending(ds: Seq<DecisionView>) -> nat
    decreases ds.len(),
{
    if ds.len() == 0 {
        0
    } else {
        count_pending(ds.drop_last()) + if ds.last().requires_confirmation { 1nat } else { 0nat }
    }
}

/// The number of decisions neither allowed nor waiting for confirmation.
pub open spec fn count_denied(ds: Seq<DecisionView>) -> nat
    decreases ds.len(),
{
    if ds.len() == 0 {
        0
    } else {
        count_denied(ds.drop_last()) + if !ds.last().allowed && !ds.last().requires_confirmation {
            1nat
        } else {
            0nat
        }
    }
}

/// What the review asks of the caller next.
pub enum ReviewStep {
    /// Every proposal has its decision.
    Done,
    /// The next proposal fell outside the scope; its denial was recorded.
    OutOfScope(OperatorDecision),
    /// The next proposal passed the scope gate; the guard must evaluate it.
    NeedsGuard(GuardActionClass),
}

/// The review of one cycle's proposals, in order.
pub struct CycleReview {
    scope: OperatorActionScope,
    proposals: Vec<OperatorProposal>,
    decisions: Vec<OperatorDecision>,
    verdicts: Ghost<Seq<Option<VerdictView>>>,
    allowed_count: usize,
    denied_count: usize,
    pending_confirmation_count: usize,
    awaiting: bool,
}

impl CycleReview {
    /// The scope the review enforces.
    pub closed spec fn scope_view(&self) -> OperatorActionScope {
        self.scope
    }

    /// The proposals under review.
    pub closed spec fn proposals_v(&self) -> Seq<ProposalView> {
        proposals_view(self.proposals@)
    }

    /// The decisions made so far, one per proposal in order.
    pub closed spec fn decisions_v(&self) -> Seq<DecisionView> {
        decisions_view(self.decisions@)
    }

    /// The guard's verdicts so far; `None` where the scope gate denied.
    pub closed spec fn verdicts_v(&self) -> Seq<Option<VerdictView>> {
        self.verdicts@
    }

    /// Whether the next proposal waits for the guard's verdict.
    pub closed spec fn awaiting_view(&self) -> bool {
        self.awaiting
    }

    /// The counters as recorded.
    pub closed spec fn counts(&self) -> (nat, nat, nat) {
        (self.allowed_count as nat, self.denied_count as nat, self.pending_confirmation_count as nat)
    }

    /// The review's invariant: each decision answers the proposal at its
    /// position, by the scope gate or by the guard's verdict, and the
    /// counters count the decisions.
    pub open spec fn wf(&self) -> bool {
        let ps = self.proposals_v();
        let ds = self.decisions_v();
        let vs = self.verdicts_v();
        &&& ds.len() <= ps.len()
        &&& vs.len() == ds.len()
        &&& self.awaiting_view() ==> ds.len() < ps.len() && permits_spec(
            self.scope_view(),
            ps[ds.len() as int].action_type,
        )
        &&& forall|i: int|
            0 <= i < ds.len() ==> match #[trigger] vs[i] {
                None => !permits_spec(self.scope_view(), ps[i].action_type) && ds[i] == scope_denial(ps[i]),
                Some(v) => permits_spec(self.scope_view(), ps[i].action_type) && ds[i] == verdict_decision(
                    ps[i],
                    v,
                ),
            }
        &&& self.counts() == (count_allowed(ds), count_denied(ds), count_pending(ds))
    }

    /// Starts the review of the first `max_actions` proposals under `scope`.
    pub fn new(proposals: Vec<OperatorProposal>, max_actions: usize, scope: OperatorActionScope) -> (r: Self)
        ensures
            r.wf(),
            r.proposals_v() == (if max_actions <= proposals@.len() {
                proposals_view(proposals@).subrange(0, max_actions as int)
            } else {
                proposals_view(proposals@)
            }),
            r.decisions_v().len() == 0,
            r.scope_view() == scope,
            !r.awaiting_view(),
    {
        let mut proposals = proposals;
        let ghost before = proposals@;
        proposals.truncate(max_actions);
        proof {
            if max_actions <= before.len() {
                assert(proposals_view(proposals@) =~= proposals_view(before).subrange(0, max_actions as int));
            }
        }
        let r = CycleReview {
            scope,
            proposals,
            decisions: Vec::new(),
            verdicts: Ghost(Seq::empty()),
            allowed_count: 0,
            denied_count: 0,
            pending_confirmation_count: 0,
            awaiting: false,
        };
        assert(r.decisions_v() =~= Seq::<DecisionView>::empty());
        r
    }

    /// Whether the next proposal waits for the guard's verdict.
    pub fn awaiting_verdict(&self) -> (b: bool)
        ensures
            b == self.awaiting_view(),
    {
        self.awaiting
    }

    proof fn lemma_counts_push(ds: Seq<DecisionView>, d: DecisionView)
        ensures
            count_allowed(ds.push(d)) == count_allowed(ds) + if d.allowed { 1nat } else { 0nat },
            count_pending(ds.push(d)) == count_pending(ds) + if d.requires_confirmation { 1nat } else { 0nat },
            count_denied(ds.push(d)) == count_denied(ds) + if !d.allowed && !d.requires_confirmation {
                1nat
            } else {
                0nat
            },
    {
        assert(ds.push(d).drop_last() =~= ds);
    }

    proof fn lemma_counts_bound(ds: Seq<DecisionView>)
        ensures
            count_allowed(ds) <= ds.len(),
            count_pending(ds) <= ds.len(),
            count_denied(ds) <= ds.len(),
        decreases ds.len(),
    {
        if ds.len() > 0 {
            Self::lemma_counts_bound(ds.drop_last());
        }
    }

    /// Advances the review: records the scope gate's denial of the next
    /// proposal, or asks for the guard's verdict on it, or reports that
    /// every proposal has its decision. While a verdict is awaited, asks
    /// for it again and changes nothing.
    pub fn next_step(&mut self) -> (s: ReviewStep)
        requires
            old(self).wf(),
        ensures
            final(self).wf(),
            final(self).proposals_v() == old(self).proposals_v(),
            final(self).scope_view() == old(self).scope_view(),
            ({
                let ps = old(self).proposals_v();
                let ds = old(self).decisions_v();
                let n = ds.len();
                match s {
                    ReviewStep::Done => n == ps.len() && !old(self).awaiting_view() && *final(self) == *old(
                        self,
                    ),
                    ReviewStep::OutOfScope(d) => {
                        &&& !old(self).awaiting_view()
                        &&& n < ps.len()
                        &&& !permits_spec(old(self).scope_view(), ps[n as int].action_type)
                        &&& d@ == scope_denial(ps[n as int])
                        &&& final(self).decisions_v() == ds.push(d@)
                        &&& !final(self).awaiting_view()
                    },
                    ReviewStep::NeedsGuard(c) => {
                        &&& n < ps.len()
                        &&& permits_spec(old(self).scope_view(), ps[n as int].action_type)
                        &&& c == (GuardActionClass::PolicySimulation {
                            command_count: command_count_for(ps[n as int]) as u16,
                        })
                        &&& final(self).decisions_v() == ds
                        &&& final(self).awaiting_view()
                    },
                }
            }),
    {
        let n = self.decisions.len();
        if self.awaiting {
            let c = classify_proposal(&self.proposals[n]);
            return ReviewStep::NeedsGuard(c);
        }
        if n == self.proposals.len() {
            return ReviewStep::Done;
        }
        let p = &self.proposals[n];
        if !self.scope.permits(p.action_type.as_str()) {
            let d = OperatorDecision {
                proposal: copy_proposal(p),
                allowed: false,
                denial_reason: Some(String::from_str("out_of_scope")),
                requires_confirmation: false,
            };
            let d2 = OperatorDecision {
                proposal: copy_proposal(p),
                allowed: false,
                denial_reason: Some(String::from_str("out_of_scope")),
                requires_confirmation: false,
            };
            let ghost ds = decisions_view(self.decisions@);
            proof {
                Self::lemma_counts_push(ds, d@);
                Self::lemma_counts_bound(ds.push(d@));
            }
            self.decisions.push(d);
            self.verdicts = Ghost(self.verdicts@.push(None));
            self.denied_count = self.denied_count + 1;
            proof {
                assert(decisions_view(self.decisions@) =~= ds.push(d2@));
            }
            ReviewStep::OutOfScope(d2)
        } else {
            self.awaiting = true;
            let c = classify_proposal(p);
            ReviewStep::NeedsGuard(c)
        }
    }

    /// Records the guard's verdict on the proposal that awaits one, and
    /// returns the decision made; `None`, with nothing changed, when no
    /// proposal awaits a verdict.
    pub fn record_verdict(&mut self, verdict: GuardVerdict) -> (r: Option<OperatorDecision>)
        requires
            old(self).wf(),
        ensures
            final(self).wf(),
            final(self).proposals_v() == old(self).proposals_v(),
            final(self).scope_view() == old(self).scope_view(),
            !final(self).awaiting_view(),
            match r {
                None => !old(self).awaiting_view() && *final(self) == *old(self),
                Some(d) => {
                    &&& old(self).awaiting_view()
                    &&& d@ == verdict_decision(
                        old(self).proposals_v()[old(self).decisions_v().len() as int],
                        verdict@,
                    )
                    &&& final(self).decisions_v() == old(self).decisions_v().push(d@)
                },
            },
    {
        if !self.awaiting {
            return None;
        }
        let n = self.decisions.len();
        let plen = self.proposals.len();
        assert(n < plen);
        let p = &self.proposals[n];
        let (allowed, denial_reason, requires_confirmation) = match &verdict {
            GuardVerdict::Allow { requires_confirmation } => if *requires_confirmation {
                (false, Some(String::from_str("pending_confirmation")), true)
            } else {
                (true, None, false)
            },
            GuardVerdict::Deny { reason } => (false, Some(copy_string(reason)), false),
            GuardVerdict::ConfigUpdated => (false, Some(String::from_str("config_updated")), false),
        };
        let d = OperatorDecision {
            proposal: copy_proposal(p),
            allowed,
            denial_reason: copy_opt_string(&denial_reason),
            requires_confirmation,
        };
        let d2 = OperatorDecision { proposal: copy_proposal(p), allowed, denial_reason, requires_confirmation };
        let ghost ds = decisions_view(self.decisions@);
        proof {
            Self::lemma_counts_push(ds, d@);
            Self::lemma_counts_bound(ds.push(d@));
        }
        assert(count_allowed(ds.push(d@)) <= n + 1 && count_denied(ds.push(d@)) <= n + 1 && count_pending(
            ds.push(d@),
        ) <= n + 1);
        self.decisions.push(d);
        self.verdicts = Ghost(self.verdicts@.push(Some(verdict@)));
        if allowed {
            self.allowed_count = self.allowed_count + 1;
        } else if requires_confirmation {
            self.pending_confirmation_count = self.pending_confirmation_count + 1;
        } else {
            self.denied_count = self.denied_count + 1;
        }
        self.awaiting = false;
        proof {
            assert(decisions_view(self.decisions@) =~= ds.push(d2@));
        }
        Some(d2)
    }
}

/// Decisions made by the scope gate or the guard neither allow and wait at once.
proof fn lemma_counts_partition(ds: Seq<DecisionView>)
    requires
        forall|i: int| 0 <= i < ds.len() ==> !((#[trigger] ds[i]).allowed && ds[i].requires_confirmation),
    ensures
        count_allowed(ds) + count_denied(ds) + count_pending(ds) == ds.len(),
    decreases ds.len(),
{
    if ds.len() > 0 {
        let p = ds.drop_last();
        assert forall|i: int| 0 <= i < p.len() implies !((#[trigger] p[i]).allowed && p[i].requires_confirmation) by {
            assert(p[i] == ds[i]);
        }
        lemma_counts_partition(p);
        assert(ds.last() == ds[ds.len() - 1]);
    }
}

/// Every decision of a review is allowed, denied or waiting for
/// confirmation, exactly one of the three; the counters add up to the
/// number of decisions.
pub proof fn law_cycle_counts_partition(r: CycleReview)
    requires
        r.wf(),
    ensures
        r.counts().0 + r.counts().1 + r.counts().2 == r.decisions_v().len(),
{
    let ds = r.decisions_v();
    let vs = r.verdicts_v();
    assert forall|i: int| 0 <= i < ds.len() implies !((#[trigger] ds[i]).allowed && ds[i].requires_confirmation) by {
        match vs[i] {
            None => {},
            Some(v) => {},
        }
    }
    lemma_counts_partition(ds);
}

/// A proposal is allowed only when the configured scope permits its action
/// type and the guard allowed it without asking for confirmation; a
/// proposal outside the scope never reaches the guard.
pub proof fn law_allowed_only_in_scope_and_guarded(r: CycleReview, i: int)
    requires
        r.wf(),
        0 <= i < r.decisions_v().len(),
    ensures
        r.decisions_v()[i].allowed ==> permits_spec(r.scope_view(), r.proposals_v()[i].action_type)
            && r.verdicts_v()[i] == Some(VerdictView::Allow { requires_confirmation: false }),
        !permits_spec(r.scope_view(), r.proposals_v()[i].action_type) ==> r.verdicts_v()[i] is None
            && r.decisions_v()[i] == scope_denial(r.proposals_v()[i]),
{
    let vs = r.verdicts_v();
    match vs[i] {
        None => {},
        Some(v) => {},
    }
}

/// A completed review decides every proposal, in order: the decision at each
/// position answers the proposal there, the allowed, denied and pending
/// counts add up to the number of proposals, and every allowed proposal is
/// within the scope.
pub proof fn law_completed_review_decides_each_proposal(r: CycleReview)
    requires
        r.wf(),
        r.decisions_v().len() == r.proposals_v().len(),
    ensures
        forall|i: int| 0 <= i < r.proposals_v().len() ==> (#[trigger] r.decisions_v()[i]).proposal == r.proposals_v()[i],
        count_allowed(r.decisions_v()) + count_denied(r.decisions_v()) + count_pending(r.decisions_v())
            == r.proposals_v().len(),
        forall|i: int|
            0 <= i < r.proposals_v().len() && (#[trigger] r.decisions_v()[i]).allowed ==> permits_spec(
                r.scope_view(),
                r.proposals_v()[i].action_type,
            ),
{
    let vs = r.verdicts_v();
    assert forall|i: int| 0 <= i < r.proposals_v().len() implies (#[trigger] r.decisions_v()[i]).proposal
        == r.proposals_v()[i] by {
        match vs[i] {
            None => {},
            Some(v) => {},
        }
    }
    law_cycle_counts_partition(r);
    assert forall|i: int| 0 <= i < r.proposals_v().len() && (#[trigger] r.decisions_v()[i]).allowed implies permits_spec(
        r.scope_view(),
        r.proposals_v()[i].action_type,
    ) by {
        law_allowed_only_in_scope_and_guarded(r, i);
    }
}

/// The full response from one operator cycle.
#[derive(Debug, Clone)]
pub struct OperatorProposalResponse {
    /// The LLM model used.
    pub model: String,
    /// Raw LLM response text.
    pub raw_response: String,
    /// Parsed proposals.
    pub proposals: Vec<OperatorProposal>,
    /// Guard decisions for each proposal.
    pub decisions: Vec<OperatorDecision>,
    /// Number of proposals allowed.
    pub allowed_count: usize,
    /// Number of proposals denied.
    pub denied_count: usize,
    /// Cycle timestamp.
    pub timestamp: String,
}

impl CycleReview {
    /// Closes the review into the cycle's response: the proposals, their
    /// decisions, and the counts of allowed and denied ones.
    pub fn finish(self, model: String, raw_response: String, timestamp: String) -> (r: OperatorProposalResponse)
        requires
            self.wf(),
        ensures
            proposals_view(r.proposals@) == self.proposals_v(),
            decisions_view(r.decisions@) == self.decisions_v(),
            r.allowed_count == count_allowed(self.decisions_v()),
            r.denied_count == count_denied(self.decisions_v()),
            r.model@ == model@,
            r.raw_response@ == raw_response@,
            r.timestamp@ == timestamp@,
    {
        OperatorProposalResponse {
            model,
            raw_response,
            proposals: self.proposals,
            decisions: self.decisions,
            allowed_count: self.allowed_count,
            denied_count: self.denied_count,
            timestamp,
        }
    }
}

/// Actions taken as views.
pub open spec fn actions_view(v: Seq<OperatorAction>) -> Seq<ActionView> {
    v.map_values(|a: OperatorAction| a@)
}

/// The actions of the allowed decisions that map to one, in order.
pub open spec fn allowed_actions_of(ds: Seq<DecisionView>) -> Seq<ActionView>
    decreases ds.len(),
{
    if ds.len() == 0 {
        Seq::empty()
    } else {
        let rest = allowed_actions_of(ds.drop_last());
        if ds.last().allowed {
            match action_for(ds.last().proposal) {
                Some(a) => rest.push(a),
                None => rest,
            }
        } else {
            rest
        }
    }
}

/// Extracts the actions of the allowed proposals of a response.
pub fn allowed_actions(response: &OperatorProposalResponse) -> (r: Vec<OperatorAction>)
    ensures
        actions_view(r@) == allowed_actions_of(decisions_view(response.decisions@)),
{
    let ghost all = decisions_view(response.decisions@);
    let mut r: Vec<OperatorAction> = Vec::new();
    let mut i: usize = 0;
    while i < response.decisions.len()
        invariant
            i <= response.decisions@.len(),
            all == decisions_view(response.decisions@),
            actions_view(r@) == allowed_actions_of(all.subrange(0, i as int)),
        decreases response.decisions@.len() - i,
    {
        let d = &response.decisions[i];
        let ghost pre = all.subrange(0, i as int);
        assert(all.subrange(0, i + 1).drop_last() =~= pre);
        assert(all.subrange(0, i + 1).last() == d@);
        if d.allowed {
            match proposal_to_action(&d.proposal) {
                Some(a) => {
                    let ghost rv = r@;
                    r.push(a);
                    assert(actions_view(r@) =~= actions_view(rv).push(a@));
                },
                None => {},
            }
        }
        i = i + 1;
    }
    assert(all.subrange(0, all.len() as int) =~= all);
    r
}

/// The status after a start request: running, unless already running.
pub fn start_status(status: OperatorStatus) -> (r: Result<OperatorStatus, OperatorError>)
    ensures
        status == OperatorStatus::Running ==> r == Err::<OperatorStatus, OperatorError>(
            OperatorError::AlreadyRunning,
        ),
        status != OperatorStatus::Running ==> r == Ok::<OperatorStatus, OperatorError>(OperatorStatus::Running),
{
    match status {
        OperatorStatus::Running => Err(OperatorError::AlreadyRunning),
        _ => Ok(OperatorStatus::Running),
    }
}

/// A cycle runs only while the loop is running.
pub fn cycle_gate(status: OperatorStatus) -> (r: Result<(), OperatorError>)
    ensures
        status == OperatorStatus::Running ==> r is Ok,
        status != OperatorStatus::Running ==> r == Err::<(), OperatorError>(OperatorError::NotRunning),
{
    match status {
        OperatorStatus::Running => Ok(()),
        _ => Err(OperatorError::NotRunning),
    }
}

/// A single entry in the operator activity log.
#[derive(Debug, Clone, PartialEq, Eq)]
pub struct OperatorActivityEntry {
    /// Unique entry id.
    pub id: String,
    /// Cycle number.
    pub cycle: u64,
    /// The action type proposed.
    pub action_type: String,
    /// The LLM rationale.
    pub rationale: String,
    /// Whether the guard allowed it.
    pub allowed: bool,
    /// Denial reason if denied.
    pub denial_reason: Option<String>,
    /// Whether human confirmation is required.
    pub requires_confirmation: bool,
    /// ISO-8601 timestamp.
    pub timestamp: String,
}

/// The activity entry recording `decision` in `cycle`: a fresh id that
/// starts with "op-", and the decision's fields.
pub open spec fn activity_ok(e: OperatorActivityEntry, cycle: u64, d: DecisionView) -> bool {
    &&& e.id@.len() >= 3 && e.id@.subrange(0, 3) == "op-"@
    &&& e.cycle == cycle
    &&& e.action_type@ == d.proposal.action_type
    &&& e.rationale@ == d.proposal.rationale
    &&& e.allowed == d.allowed
    &&& opt_text(e.denial_reason) == d.denial_reason
    &&& e.requires_confirmation == d.requires_confirmation
}

/// Builds the activity entry for a decision, stamped with a fresh id and
/// the current time.
pub fn activity_entry(cycle: u64, decision: &OperatorDecision) -> (e: OperatorActivityEntry)
    ensures
        activity_ok(e, cycle, decision@),
{
    let mut id = String::from_str("op-");
    proof {
        reveal_strlit("op-");
    }
    let u = random_uuid_text();
    push_str(&mut id, u.as_str());
    assert(id@.subrange(0, 3) =~= "op-"@);
    OperatorActivityEntry {
        id,
        cycle,
        action_type: copy_string(&decision.proposal.action_type),
        rationale: copy_string(&decision.proposal.rationale),
        allowed: decision.allowed,
        denial_reason: copy_opt_string(&decision.denial_reason),
        requires_confirmation: decision.requires_confirmation,
        timestamp: now_rfc3339(),
    }
}

/// A copy of an activity entry.
pub fn copy_activity(e: &OperatorActivityEntry) -> (r: OperatorActivityEntry)
    ensures
        r.id@ == e.id@,
        r.cycle == e.cycle,
        r.action_type@ == e.action_type@,
        r.rationale@ == e.rationale@,
        r.allowed == e.allowed,
        opt_text(r.denial_reason) == opt_text(e.denial_reason),
        r.requires_confirmation == e.requires_confirmation,
        r.timestamp@ == e.timestamp@,
{
    OperatorActivityEntry {
        id: copy_string(&e.id),
        cycle: e.cycle,
        action_type: copy_string(&e.action_type),
        rationale: copy_string(&e.rationale),
        allowed: e.allowed,
        denial_reason: copy_opt_string(&e.denial_reason),
        requires_confirmation: e.requires_confirmation,
        timestamp: copy_string(&e.timestamp),
    }
}

/// An activity entry with its texts taken as character sequences.
pub open spec fn activity_view(e: OperatorActivityEntry) -> (Seq<char>, u64, Seq<char>, Seq<char>, bool, Option<Seq<char>>, bool, Seq<char>) {
    (e.id@, e.cycle, e.action_type@, e.rationale@, e.allowed, opt_text(e.denial_reason), e.requires_confirmation, e.timestamp@)
}

/// A bounded log of operator activity, oldest first.
pub struct OperatorActivityLog {
    entries: Vec<OperatorActivityEntry>,
    capacity: usize,
}

impl OperatorActivityLog {
    /// The entries, oldest first.
    pub closed spec fn entries_view(&self) -> Seq<OperatorActivityEntry> {
        self.entries@
    }

    pub closed spec fn capacity_view(&self) -> nat {
        self.capacity as nat
    }

    /// An empty log with the given capacity.
    pub fn new(capacity: usize) -> (l: Self)
        ensures
            l.entries_view().len() == 0,
            l.capacity_view() == capacity,
    {
        OperatorActivityLog { entries: Vec::new(), capacity }
    }

    /// Appends an entry, evicting the oldest when at capacity.
    pub fn append(&mut self, entry: OperatorActivityEntry)
        ensures
            final(self).entries_view() == crate::federation::log_append(
                old(self).entries_view(),
                old(self).capacity_view(),
                entry,
            ),
            final(self).capacity_view() == old(self).capacity_view(),
    {
        if self.entries.len() >= self.capacity && self.entries.len() > 0 {
            self.entries.remove(0);
        }
        self.entries.push(entry);
        proof {
            let o = old(self).entries@;
            if o.len() >= self.capacity && o.len() > 0 {
                assert(o.remove(0) =~= o.drop_first());
            }
        }
    }

    /// The most recent `n` entries, newest first.
    pub fn recent(&self, n: usize) -> (r: Vec<OperatorActivityEntry>)
        ensures
            r@.len() == if n < self.entries_view().len() { n as nat } else { self.entries_view().len() },
            forall|i: int|
                0 <= i < r@.len() ==> activity_view(#[trigger] r@[i]) == activity_view(
                    self.entries_view()[self.entries_view().len() - 1 - i],
                ),
    {
        let mut r: Vec<OperatorActivityEntry> = Vec::new();
        let len = self.entries.len();
        let mut i: usize = 0;
        while i < n && i < len
            invariant
                len == self.entries@.len(),
                i <= len,
                i <= n,
                r@.len() == i,
                forall|k: int|
                    0 <= k < i ==> activity_view(#[trigger] r@[k]) == activity_view(self.entries@[len - 1 - k]),
            decreases len - i,
        {
            let e = copy_activity(&self.entries[len - 1 - i]);
            r.push(e);
            i = i + 1;
        }
        r
    }

    /// The number of entries.
    pub fn len(&self) -> (n: usize)
        ensures
            n == self.entries_view().len(),
    {
        self.entries.len()
    }

    /// Whether the log is empty.
    pub fn is_empty(&self) -> (b: bool)
        ensures
            b == (self.entries_view().len() == 0),
    {
        self.entries.len() == 0
    }
}

} // verus!
