//! Operator proposals: the action objects the LLM produces, and how an
//! allowed proposal becomes a concrete action.

use vstd::prelude::*;
use crate::symbolic_program::str_eq;
use crate::text::{copy_string, trim, trim_str};

verus! {

/// A parameter value, as the operator reads it.
#[derive(Debug, Clone, PartialEq, Eq)]
pub struct ParamValue {
    /// The value written as JSON.
    pub json: String,
    /// The string, when the value is a JSON string.
    pub text: Option<String>,
    /// The number of elements, when the value is a JSON array.
    pub items: Option<usize>,
}

/// A parameter value with its texts taken as character sequences.
pub struct ParamView {
    pub json: Seq<char>,
    pub text: Option<Seq<char>>,
    pub items: Option<nat>,
}

/// An optional text taken as an optional character sequence.
pub open spec fn opt_text(o: Option<String>) -> Option<Seq<char>> {
    match o {
        Some(s) => Some(s@),
        None => None,
    }
}

impl View for ParamValue {
    type V = ParamView;

    open spec fn view(&self) -> ParamView {
        ParamView {
            json: self.json@,
            text: opt_text(self.text),
            items: match self.items {
                Some(n) => Some(n as nat),
                None => None,
            },
        }
    }
}

/// A single action proposed by the LLM operator.
#[derive(Debug, Clone, PartialEq, Eq)]
pub struct OperatorProposal {
    /// The action type (e.g. "escalate_case", "log_analysis").
    pub action_type: String,
    /// Optional target id (case id, evidence id, claim id).
    pub target_id: Option<String>,
    /// The LLM's rationale for this proposal.
    pub rationale: String,
    /// Action-specific parameters, by name; empty when the LLM gave none.
    pub parameters: Vec<(String, ParamValue)>,
}

/// A proposal with its texts taken as character sequences.
pub struct ProposalView {
    pub action_type: Seq<char>,
    pub target_id: Option<Seq<char>>,
    pub rationale: Seq<char>,
    pub parameters: Seq<(Seq<char>, ParamView)>,
}

impl View for OperatorProposal {
    type V = ProposalView;

    open spec fn view(&self) -> ProposalView {
        ProposalView {
            action_type: self.action_type@,
            target_id: opt_text(self.target_id),
            rationale: self.rationale@,
            parameters: self.parameters@.map_values(|e: (String, ParamValue)| (e.0@, e.1@)),
        }
    }
}

/// The first parameter named `key`.
pub open spec fn param_lookup(ps: Seq<(Seq<char>, ParamView)>, key: Seq<char>) -> Option<ParamView>
    decreases ps.len(),
{
    if ps.len() == 0 {
        None
    } else if ps[0].0 == key {
        Some(ps[0].1)
    } else {
        param_lookup(ps.drop_first(), key)
    }
}

/// The string parameter `key`, or `default` when it is missing or not a string.
pub open spec fn text_or(ps: Seq<(Seq<char>, ParamView)>, key: Seq<char>, default: Seq<char>) -> Seq<char> {
    match param_lookup(ps, key) {
        Some(v) => match v.text {
            Some(t) => t,
            None => default,
        },
        None => default,
    }
}

/// The `commands` parameter as JSON, or an empty JSON array.
pub open spec fn commands_json(ps: Seq<(Seq<char>, ParamView)>) -> Seq<char> {
    match param_lookup(ps, "commands"@) {
        Some(v) => v.json,
        None => "[]"@,
    }
}

/// The target id, or the empty text.
pub open spec fn target_text(p: ProposalView) -> Seq<char> {
    match p.target_id {
        Some(t) => t,
        None => Seq::empty(),
    }
}

/// An action to execute, derived from an allowed proposal.
#[derive(Debug, Clone, PartialEq, Eq)]
pub enum OperatorAction {
    /// Log an analysis (no side effects).
    LogAnalysis { severity: String, summary: String, rationale: String },
    /// Escalate a case.
    EscalateCase { case_id: String, rationale: String },
    /// Open a new case from evidence.
    OpenCase { evidence_id: String, title: String, watchlist_id: String, rationale: String },
    /// Review a claim; `status` is "corroborated" or "rejected".
    ReviewClaim { claim_id: String, status: String, rationale: String },
    /// Broadcast to federation peers.
    FederationBroadcast { title: String, summary: String, content: String, rationale: String },
    /// Run a policy simulation; `commands` is JSON.
    PolicySimulation { commands: String, rationale: String },
}

/// An action with its texts taken as character sequences.
pub enum ActionView {
    LogAnalysis { severity: Seq<char>, summary: Seq<char>, rationale: Seq<char> },
    EscalateCase { case_id: Seq<char>, rationale: Seq<char> },
    OpenCase { evidence_id: Seq<char>, title: Seq<char>, watchlist_id: Seq<char>, rationale: Seq<char> },
    ReviewClaim { claim_id: Seq<char>, status: Seq<char>, rationale: Seq<char> },
    FederationBroadcast { title: Seq<char>, summary: Seq<char>, content: Seq<char>, rationale: Seq<char> },
    PolicySimulation { commands: Seq<char>, rationale: Seq<char> },
}

impl View for OperatorAction {
    type V = ActionView;

    open spec fn view(&self) -> ActionView {
        match self {
            OperatorAction::LogAnalysis { severity, summary, rationale } => ActionView::LogAnalysis {
                severity: severity@,
                summary: summary@,
                rationale: rationale@,
            },
            OperatorAction::EscalateCase { case_id, rationale } => ActionView::EscalateCase {
                case_id: case_id@,
                rationale: rationale@,
            },
            OperatorAction::OpenCase { evidence_id, title, watchlist_id, rationale } => ActionView::OpenCase {
                evidence_id: evidence_id@,
                title: title@,
                watchlist_id: watchlist_id@,
                rationale: rationale@,
            },
            OperatorAction::ReviewClaim { claim_id, status, rationale } => ActionView::ReviewClaim {
                claim_id: claim_id@,
                status: status@,
                rationale: rationale@,
            },
            OperatorAction::FederationBroadcast { title, summary, content, rationale } => {
                ActionView::FederationBroadcast {
                    title: title@,
                    summary: summary@,
                    content: content@,
                    rationale: rationale@,
                }
            },
            OperatorAction::PolicySimulation { commands, rationale } => ActionView::PolicySimulation {
                commands: commands@,
                rationale: rationale@,
            },
        }
    }
}

/// The action type string of an action.
pub open spec fn action_type_of(a: ActionView) -> Seq<char> {
    match a {
        ActionView::LogAnalysis { .. } => "log_analysis"@,
        ActionView::EscalateCase { .. } => "escalate_case"@,
        ActionView::OpenCase { .. } => "open_case"@,
        ActionView::ReviewClaim { .. } => "review_claim"@,
        ActionView::FederationBroadcast { .. } => "federation_broadcast"@,
        ActionView::PolicySimulation { .. } => "policy_simulation"@,
    }
}

impl OperatorAction {
    /// The action type string for this action.
    pub fn action_type(&self) -> (t: &'static str)
        ensures
            t@ == action_type_of(self@),
    {
        match self {
            OperatorAction::LogAnalysis { .. } => "log_analysis",
            OperatorAction::EscalateCase { .. } => "escalate_case",
            OperatorAction::OpenCase { .. } => "open_case",
            OperatorAction::ReviewClaim { .. } => "review_claim",
            OperatorAction::FederationBroadcast { .. } => "federation_broadcast",
            OperatorAction::PolicySimulation { .. } => "policy_simulation",
        }
    }
}

/// The action an allowed proposal maps to: `None` for unknown action types,
/// and for escalations, case openings and claim reviews that lack the ids
/// they need; missing string parameters take their documented defaults.
pub open spec fn action_for(p: ProposalView) -> Option<ActionView> {
    let t = p.action_type;
    let ps = p.parameters;
    let target = target_text(p);
    let why = p.rationale;
    if t == "log_analysis"@ {
        Some(
            ActionView::LogAnalysis {
                severity: text_or(ps, "severity"@, "low"@),
                summary: text_or(ps, "summary"@, ""@),
                rationale: why,
            },
        )
    } else if t == "escalate_case"@ {
        if target.len() == 0 {
            None
        } else {
            Some(ActionView::EscalateCase { case_id: target, rationale: why })
        }
    } else if t == "open_case"@ {
        let watchlist = text_or(ps, "watchlist_id"@, ""@);
        if target.len() == 0 || watchlist.len() == 0 {
            None
        } else {
            Some(
                ActionView::OpenCase {
                    evidence_id: target,
                    title: text_or(ps, "title"@, "Operator-opened case"@),
                    watchlist_id: watchlist,
                    rationale: why,
                },
            )
        }
    } else if t == "review_claim"@ {
        if target.len() == 0 {
            None
        } else {
            Some(
                ActionView::ReviewClaim {
                    claim_id: target,
                    status: text_or(ps, "status"@, "corroborated"@),
                    rationale: why,
                },
            )
        }
    } else if t == "federation_broadcast"@ {
        Some(
            ActionView::FederationBroadcast {
                title: text_or(ps, "title"@, "Operator broadcast"@),
                summary: text_or(ps, "summary"@, ""@),
                content: text_or(ps, "content"@, ""@),
                rationale: why,
            },
        )
    } else if t == "policy_simulation"@ {
        Some(ActionView::PolicySimulation { commands: commands_json(ps), rationale: why })
    } else {
        None
    }
}

/// A copy of an optional text.
pub fn copy_opt_string(o: &Option<String>) -> (r: Option<String>)
    ensures
        opt_text(r) == opt_text(*o),
{
    match o {
        Some(s) => Some(copy_string(s)),
        None => None,
    }
}

/// A copy of a parameter value.
pub fn copy_param(v: &ParamValue) -> (r: ParamValue)
    ensures
        r@ == v@,
{
    ParamValue { json: copy_string(&v.json), text: copy_opt_string(&v.text), items: v.items }
}

/// A copy of a proposal.
pub fn copy_proposal(p: &OperatorProposal) -> (r: OperatorProposal)
    ensures
        r@ == p@,
{
    let mut ps: Vec<(String, ParamValue)> = Vec::new();
    let mut i: usize = 0;
    while i < p.parameters.len()
        invariant
            i <= p.parameters@.len(),
            ps@.len() == i,
            forall|k: int|
                0 <= k < i ==> (#[trigger] ps@[k]).0@ == p.parameters@[k].0@ && ps@[k].1@
                    == p.parameters@[k].1@,
        decreases p.parameters@.len() - i,
    {
        let e = &p.parameters[i];
        ps.push((copy_string(&e.0), copy_param(&e.1)));
        i = i + 1;
    }
    let r = OperatorProposal {
        action_type: copy_string(&p.action_type),
        target_id: copy_opt_string(&p.target_id),
        rationale: copy_string(&p.rationale),
        parameters: ps,
    };
    assert(r@.parameters =~= p@.parameters);
    r
}

/// The first parameter named `key`, if any.
pub fn find_param<'a>(ps: &'a Vec<(String, ParamValue)>, key: &str) -> (r: Option<&'a ParamValue>)
    ensures
        match r {
            Some(v) => param_lookup(ps@.map_values(|e: (String, ParamValue)| (e.0@, e.1@)), key@)
                == Some(v@),
            None => param_lookup(ps@.map_values(|e: (String, ParamValue)| (e.0@, e.1@)), key@) is None,
        },
{
    let ghost all = ps@.map_values(|e: (String, ParamValue)| (e.0@, e.1@));
    let mut i: usize = 0;
    assert(all.subrange(0, all.len() as int) =~= all);
    while i < ps.len()
        invariant
            i <= ps@.len(),
            all == ps@.map_values(|e: (String, ParamValue)| (e.0@, e.1@)),
            param_lookup(all, key@) == param_lookup(all.subrange(i as int, all.len() as int), key@),
        decreases ps@.len() - i,
    {
        let ghost rest = all.subrange(i as int, all.len() as int);
        assert(rest[0] == all[i as int]);
        if str_eq(ps[i].0.as_str(), key) {
            return Some(&ps[i].1);
        }
        assert(rest.drop_first() =~= all.subrange(i + 1, all.len() as int));
        i = i + 1;
    }
    None
}

/// The string parameter `key`, or `default`.
pub fn param_text_or(ps: &Vec<(String, ParamValue)>, key: &str, default: &str) -> (s: String)
    ensures
        s@ == text_or(ps@.map_values(|e: (String, ParamValue)| (e.0@, e.1@)), key@, default@),
{
    match find_param(ps, key) {
        Some(v) => match &v.text {
            Some(t) => copy_string(t),
            None => String::from_str(default),
        },
        None => String::from_str(default),
    }
}

/// Converts an allowed proposal into an [`OperatorAction`]; `None` when the
/// action type maps to no concrete action (see `action_for`).
pub fn proposal_to_action(proposal: &OperatorProposal) -> (r: Option<OperatorAction>)
    ensures
        match r {
            Some(a) => action_for(proposal@) == Some(a@),
            None => action_for(proposal@) is None,
        },
{
    let t = proposal.action_type.as_str();
    let ps = &proposal.parameters;
    let target = match &proposal.target_id {
        Some(s) => copy_string(s),
        None => String::new(),
    };
    assert(target@ == target_text(proposal@));
    let why = copy_string(&proposal.rationale);
    if str_eq(t, "log_analysis") {
        Some(
            OperatorAction::LogAnalysis {
                severity: param_text_or(ps, "severity", "low"),
                summary: param_text_or(ps, "summary", ""),
                rationale: why,
            },
        )
    } else if str_eq(t, "escalate_case") {
        if target.unicode_len() == 0 {
            None
        } else {
            Some(OperatorAction::EscalateCase { case_id: target, rationale: why })
        }
    } else if str_eq(t, "open_case") {
        let watchlist = param_text_or(ps, "watchlist_id", "");
        if target.unicode_len() == 0 || watchlist.unicode_len() == 0 {
            None
        } else {
            Some(
                OperatorAction::OpenCase {
                    evidence_id: target,
                    title: param_text_or(ps, "title", "Operator-opened case"),
                    watchlist_id: watchlist,
                    rationale: why,
                },
            )
        }
    } else if str_eq(t, "review_claim") {
        if target.unicode_len() == 0 {
            None
        } else {
            Some(
                OperatorAction::ReviewClaim {
                    claim_id: target,
                    status: param_text_or(ps, "status", "corroborated"),
                    rationale: why,
                },
            )
        }
    } else if str_eq(t, "federation_broadcast") {
        Some(
            OperatorAction::FederationBroadcast {
                title: param_text_or(ps, "title", "Operator broadcast"),
                summary: param_text_or(ps, "summary", ""),
                content: param_text_or(ps, "content", ""),
                rationale: why,
            },
        )
    } else if str_eq(t, "policy_simulation") {
        let commands = match find_param(ps, "commands") {
            Some(v) => copy_string(&v.json),
            None => String::from_str("[]"),
        };
        Some(OperatorAction::PolicySimulation { commands, rationale: why })
    } else {
        None
    }
}

/// Whether `s` begins with `p`.
pub open spec fn begins_with(s: Seq<char>, p: Seq<char>) -> bool {
    p.len() <= s.len() && s.subrange(0, p.len() as int) == p
}

/// Whether `s` ends with `p`.
pub open spec fn finishes_with(s: Seq<char>, p: Seq<char>) -> bool {
    p.len() <= s.len() && s.subrange(s.len() - p.len(), s.len() as int) == p
}

/// `s` with every leading repetition of `p` removed.
pub open spec fn strip_leading(s: Seq<char>, p: Seq<char>) -> Seq<char>
    decreases s.len(),
{
    if p.len() > 0 && begins_with(s, p) {
        strip_leading(s.subrange(p.len() as int, s.len() as int), p)
    } else {
        s
    }
}

/// `s` with every trailing repetition of `p` removed.
pub open spec fn strip_trailing(s: Seq<char>, p: Seq<char>) -> Seq<char>
    decreases s.len(),
{
    if p.len() > 0 && finishes_with(s, p) {
        strip_trailing(s.subrange(0, s.len() - p.len()), p)
    } else {
        s
    }
}

/// The JSON text inside raw LLM output: the trimmed output, and, when it
/// opens a markdown code fence, what lies between the fences, trimmed.
pub open spec fn proposal_json_text(raw: Seq<char>) -> Seq<char> {
    let t = trim(raw);
    if begins_with(t, "```"@) {
        trim(strip_trailing(strip_leading(strip_leading(t, "```json"@), "```"@), "```"@))
    } else {
        t
    }
}

/// Whether `cs[at..at + p.len()]` equals `p`.
fn segment_matches(cs: &Vec<char>, at: usize, p: &Vec<char>) -> (b: bool)
    requires
        at + p@.len() <= cs@.len(),
    ensures
        b == (cs@.subrange(at as int, at + p@.len()) == p@),
{
    let n = cs.len();
    let mut k: usize = 0;
    while k < p.len()
        invariant
            n == cs@.len(),
            at + p@.len() <= cs@.len(),
            k <= p@.len(),
            forall|j: int| 0 <= j < k ==> cs@[at + j] == p@[j],
        decreases p@.len() - k,
    {
        if cs[at + k] != p[k] {
            assert(cs@.subrange(at as int, at + p@.len())[k as int] != p@[k as int]);
            return false;
        }
        k = k + 1;
    }
    assert(cs@.subrange(at as int, at + p@.len()) =~= p@);
    true
}

/// The start of `strip_leading(cs[lo..hi], p)`.
fn skip_leading(cs: &Vec<char>, lo: usize, hi: usize, p: &Vec<char>) -> (r: usize)
    requires
        lo <= hi <= cs@.len(),
        p@.len() > 0,
    ensures
        lo <= r <= hi,
        strip_leading(cs@.subrange(lo as int, hi as int), p@) == cs@.subrange(r as int, hi as int),
{
    let mut r = lo;
    while hi - r >= p.len() && segment_matches(cs, r, p)
        invariant
            lo <= r <= hi <= cs@.len(),
            p@.len() > 0,
            strip_leading(cs@.subrange(lo as int, hi as int), p@) == strip_leading(
                cs@.subrange(r as int, hi as int),
                p@,
            ),
        decreases hi - r,
    {
        let ghost cur = cs@.subrange(r as int, hi as int);
        assert(cur.subrange(0, p@.len() as int) =~= cs@.subrange(r as int, r + p@.len()));
        assert(cur.subrange(p@.len() as int, cur.len() as int) =~= cs@.subrange(r + p@.len(), hi as int));
        r = r + p.len();
    }
    proof {
        let cur = cs@.subrange(r as int, hi as int);
        if p@.len() <= cur.len() {
            assert(cur.subrange(0, p@.len() as int) =~= cs@.subrange(r as int, r + p@.len()));
        }
    }
    r
}

/// The end of `strip_trailing(cs[lo..hi], p)`.
fn skip_trailing(cs: &Vec<char>, lo: usize, hi: usize, p: &Vec<char>) -> (r: usize)
    requires
        lo <= hi <= cs@.len(),
        p@.len() > 0,
    ensures
        lo <= r <= hi,
        strip_trailing(cs@.subrange(lo as int, hi as int), p@) == cs@.subrange(lo as int, r as int),
{
    let mut r = hi;
    while r - lo >= p.len() && segment_matches(cs, r - p.len(), p)
        invariant
            lo <= r <= hi <= cs@.len(),
            p@.len() > 0,
            strip_trailing(cs@.subrange(lo as int, hi as int), p@) == strip_trailing(
                cs@.subrange(lo as int, r as int),
                p@,
            ),
        decreases r - lo,
    {
        let ghost cur = cs@.subrange(lo as int, r as int);
        assert(cur.subrange(cur.len() - p@.len(), cur.len() as int) =~= cs@.subrange(r - p@.len(), r as int));
        assert(cur.subrange(0, cur.len() - p@.len()) =~= cs@.subrange(lo as int, r - p@.len()));
        r = r - p.len();
    }
    proof {
        let cur = cs@.subrange(lo as int, r as int);
        if p@.len() <= cur.len() {
            assert(cur.subrange(cur.len() - p@.len(), cur.len() as int) =~= cs@.subrange(r - p@.len(), r as int));
        }
    }
    r
}

/// The JSON text inside raw LLM output (see `proposal_json_text`).
pub fn clean_proposal_text(raw: &str) -> (s: String)
    ensures
        s@ == proposal_json_text(raw@),
{
    let t = trim_str(raw);
    let cs = crate::text::chars_of(t.as_str());
    let fence = crate::text::chars_of("```");
    let fence_json = crate::text::chars_of("```json");
    proof {
        reveal_strlit("```");
        reveal_strlit("```json");
    }
    let n = cs.len();
    assert(cs@.subrange(0, n as int) =~= cs@);
    if n >= fence.len() && segment_matches(&cs, 0, &fence) {
        let a = skip_leading(&cs, 0, n, &fence_json);
        let b = skip_leading(&cs, a, n, &fence);
        let c = skip_trailing(&cs, b, n, &fence);
        let inner = crate::text::string_from_chars(vstd::slice::slice_subrange(cs.as_slice(), b, c));
        trim_str(inner.as_str())
    } else {
        t
    }
}

/// Proposals taken as views.
pub open spec fn proposals_view(v: Seq<OperatorProposal>) -> Seq<ProposalView> {
    v.map_values(|p: OperatorProposal| p@)
}

/// The proposals whose action type is not blank, in order.
pub open spec fn named_proposals(ps: Seq<ProposalView>) -> Seq<ProposalView>
    decreases ps.len(),
{
    if ps.len() == 0 {
        Seq::empty()
    } else if trim(ps[0].action_type).len() > 0 {
        seq![ps[0]] + named_proposals(ps.drop_first())
    } else {
        named_proposals(ps.drop_first())
    }
}

/// Keeps the proposals whose action type is not blank, in order.
pub fn keep_named_proposals(ps: Vec<OperatorProposal>) -> (r: Vec<OperatorProposal>)
    ensures
        proposals_view(r@) == named_proposals(proposals_view(ps@)),
{
    let mut rest = ps;
    let mut r: Vec<OperatorProposal> = Vec::new();
    while rest.len() > 0
        invariant
            named_proposals(proposals_view(ps@)) == proposals_view(r@) + named_proposals(
                proposals_view(rest@),
            ),
        decreases rest@.len(),
    {
        let ghost before = rest@;
        let p = rest.remove(0);
        proof {
            assert(proposals_view(rest@) =~= proposals_view(before).drop_first());
        }
        let name = trim_str(p.action_type.as_str());
        if name.unicode_len() > 0 {
            let ghost rv = r@;
            r.push(p);
            proof {
                assert(proposals_view(r@) =~= proposals_view(rv) + seq![p@]);
                assert(proposals_view(r@) + named_proposals(proposals_view(rest@)) =~= proposals_view(rv)
                    + (seq![p@] + named_proposals(proposals_view(rest@))));
            }
        }
    }
    assert(proposals_view(rest@) =~= Seq::<ProposalView>::empty());
    assert(proposals_view(r@) + Seq::<ProposalView>::empty() =~= proposals_view(r@));
    r
}

} // verus!
