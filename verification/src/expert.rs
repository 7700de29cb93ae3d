//! Expert-rule voting: rules with feature thresholds vote for a verdict with a
//! weight; the heaviest verdict wins, ties going to the more cautious verdict.

use vstd::prelude::*;
use crate::errors::{HelixError, HelixFault};
use crate::reasoning_types::{ExpertSystemKernel, ReasoningBackend, ReasoningVerdict};
use crate::symbolic_decision::{Confidence, ReasoningDecision, ReasoningTrace};
use crate::symbolic_parse::{blank_fault, normalize_non_empty};
use crate::symbolic_program::strs;
use crate::text::{decimal, decimal_string, push_str, trim, trim_str};

verus! {

/// A rule that votes for `verdict` with `weight` when every listed feature
/// reaches its minimum.
#[derive(Debug, Clone, PartialEq, Eq)]
pub struct ExpertRule {
    /// Stable rule identifier.
    pub id: String,
    /// Feature minimums, one entry per feature name.
    pub min_features: Vec<(String, i64)>,
    /// The verdict the rule votes for.
    pub verdict: ReasoningVerdict,
    /// The weight of its vote.
    pub weight: u16,
}

/// A feature table with its names taken as character sequences.
pub open spec fn feats_view(v: Seq<(String, i64)>) -> Seq<(Seq<char>, i64)> {
    v.map_values(|p: (String, i64)| (p.0@, p.1))
}

/// A rule with its texts taken as character sequences.
pub struct ExpertRuleView {
    pub id: Seq<char>,
    pub mins: Seq<(Seq<char>, i64)>,
    pub verdict: ReasoningVerdict,
    pub weight: u16,
}

impl View for ExpertRule {
    type V = ExpertRuleView;

    open spec fn view(&self) -> ExpertRuleView {
        ExpertRuleView {
            id: self.id@,
            mins: feats_view(self.min_features@),
            verdict: self.verdict,
            weight: self.weight,
        }
    }
}

pub open spec fn expert_rules_view(v: Seq<ExpertRule>) -> Seq<ExpertRuleView> {
    v.map_values(|r: ExpertRule| r@)
}

/// Every name of the table is non-blank.
pub open spec fn all_named(v: Seq<(Seq<char>, i64)>) -> bool {
    forall|i: int| 0 <= i < v.len() ==> trim(#[trigger] v[i].0).len() > 0
}

/// Why a rule is refused: a blank id, or a blank feature name.
pub open spec fn rule_fault(r: ExpertRuleView) -> Option<HelixFault> {
    if trim(r.id).len() == 0 {
        Some(blank_fault("reasoning.rules"@, "rule id"@))
    } else if !all_named(r.mins) {
        Some(blank_fault("reasoning.rules"@, "expert rule feature name"@))
    } else {
        None
    }
}

/// The refusal of the first refused rule.
pub open spec fn rules_fault(rs: Seq<ExpertRuleView>) -> Option<HelixFault>
    decreases rs.len(),
{
    if rs.len() == 0 {
        None
    } else {
        match rules_fault(rs.drop_last()) {
            Some(e) => Some(e),
            None => rule_fault(rs.last()),
        }
    }
}

/// The features that reach the minimum `m`: same trimmed name, value at least `m`.
pub open spec fn hits(m: (Seq<char>, i64), fs: Seq<(Seq<char>, i64)>) -> nat
    decreases fs.len(),
{
    if fs.len() == 0 {
        0
    } else {
        hits(m, fs.drop_last()) + if trim(fs.last().0) == trim(m.0) && m.1 <= fs.last().1 {
            1nat
        } else {
            0nat
        }
    }
}

/// How many (minimum, feature) pairs of a rule are met.
pub open spec fn satisfied(mins: Seq<(Seq<char>, i64)>, fs: Seq<(Seq<char>, i64)>) -> nat
    decreases mins.len(),
{
    if mins.len() == 0 {
        0
    } else {
        satisfied(mins.drop_last(), fs) + hits(mins.last(), fs)
    }
}

/// A rule matches when it has no minimum or every minimum is met exactly once.
pub open spec fn rule_matches(r: ExpertRuleView, fs: Seq<(Seq<char>, i64)>) -> bool {
    r.mins.len() == 0 || satisfied(r.mins, fs) == r.mins.len()
}

/// `a + b`, saturating at `u32::MAX`.
pub open spec fn sat_add(a: u32, b: u32) -> u32 {
    if a + b > u32::MAX {
        u32::MAX
    } else {
        (a + b) as u32
    }
}

/// The saturating total weight of the matching rules voting for `v`.
pub open spec fn tally(rs: Seq<ExpertRuleView>, fs: Seq<(Seq<char>, i64)>, v: ReasoningVerdict) -> u32
    decreases rs.len(),
{
    if rs.len() == 0 {
        0
    } else if rule_matches(rs.last(), fs) && rs.last().verdict == v {
        sat_add(tally(rs.drop_last(), fs, v), rs.last().weight as u32)
    } else {
        tally(rs.drop_last(), fs, v)
    }
}

/// The trimmed ids of the matching rules, in rule order.
pub open spec fn matched_ids(rs: Seq<ExpertRuleView>, fs: Seq<(Seq<char>, i64)>) -> Seq<Seq<char>>
    decreases rs.len(),
{
    if rs.len() == 0 {
        Seq::empty()
    } else if rule_matches(rs.last(), fs) {
        matched_ids(rs.drop_last(), fs).push(trim(rs.last().id))
    } else {
        matched_ids(rs.drop_last(), fs)
    }
}

/// The heaviest verdict; on a tie, deny before review before allow.
pub open spec fn select_verdict_spec(allow: u32, review: u32, deny: u32) -> ReasoningVerdict {
    if deny >= review && deny >= allow {
        ReasoningVerdict::Deny
    } else if review >= allow {
        ReasoningVerdict::Review
    } else {
        ReasoningVerdict::Allow
    }
}

/// The score of a verdict among the three.
pub open spec fn score_of(v: ReasoningVerdict, allow: u32, review: u32, deny: u32) -> u32 {
    match v {
        ReasoningVerdict::Allow => allow,
        ReasoningVerdict::Review => review,
        ReasoningVerdict::Deny => deny,
    }
}

/// The lower-case name of a verdict.
pub open spec fn verdict_name(v: ReasoningVerdict) -> Seq<char> {
    match v {
        ReasoningVerdict::Allow => "allow"@,
        ReasoningVerdict::Review => "review"@,
        ReasoningVerdict::Deny => "deny"@,
    }
}

/// The rationale of a vote.
pub open spec fn vote_rationale(v: ReasoningVerdict, allow: u32, review: u32, deny: u32) -> Seq<char> {
    "expert-system compiled vote selected "@ + verdict_name(v) + " (allow="@ + decimal(allow as nat)
        + ", review="@ + decimal(review as nat) + ", deny="@ + decimal(deny as nat) + ")"@
}

/// An expert decision: deny with full confidence when no rule matches;
/// otherwise the selected verdict with its share of the total weight.
pub open spec fn expert_decision_ok(rs: Seq<ExpertRuleView>, fs: Seq<(Seq<char>, i64)>, d: ReasoningDecision) -> bool {
    let allow = tally(rs, fs, ReasoningVerdict::Allow);
    let review = tally(rs, fs, ReasoningVerdict::Review);
    let deny = tally(rs, fs, ReasoningVerdict::Deny);
    let ids = matched_ids(rs, fs);
    let v = select_verdict_spec(allow, review, deny);
    let total = sat_add(sat_add(allow, review), deny);
    &&& d.backend is ExpertSystem
    &&& strs(d.trace.matched_rules@) == ids
    &&& d.trace.derived_facts@.len() == 0
    &&& d.trace.symbolic_entailed is None
    &&& d.trace.symbolic_status is None
    &&& d.trace.program_fingerprint is None
    &&& if ids.len() == 0 {
        &&& d.verdict == ReasoningVerdict::Deny
        &&& d.confidence == Confidence { numerator: 1, denominator: 1 }
        &&& d.rationale@ == "no expert rules matched; fail-closed deny"@
    } else {
        &&& d.verdict == v
        &&& d.confidence == Confidence {
            numerator: score_of(v, allow, review, deny) as u64,
            denominator: if total == 0 { 1 } else { total as u64 },
        }
        &&& d.rationale@ == vote_rationale(v, allow, review, deny)
    }
}

/// The heaviest verdict; on a tie, deny before review before allow.
pub fn select_verdict(allow: u32, review: u32, deny: u32) -> (v: ReasoningVerdict)
    ensures
        v == select_verdict_spec(allow, review, deny),
{
    if deny >= review && deny >= allow {
        ReasoningVerdict::Deny
    } else if review >= allow {
        ReasoningVerdict::Review
    } else {
        ReasoningVerdict::Allow
    }
}

fn all_named_exec(v: &Vec<(String, i64)>) -> (b: bool)
    ensures
        b == all_named(feats_view(v@)),
{
    let mut i: usize = 0;
    while i < v.len()
        invariant
            i <= v@.len(),
            forall|k: int| 0 <= k < i ==> trim(#[trigger] feats_view(v@)[k].0).len() > 0,
        decreases v@.len() - i,
    {
        let t = trim_str(v[i].0.as_str());
        if t.as_str().unicode_len() == 0 {
            assert(feats_view(v@)[i as int].0 == v@[i as int].0@);
            return false;
        }
        i = i + 1;
    }
    true
}

fn count_hits(name: &str, min: i64, fs: &Vec<(String, i64)>) -> (n: usize)
    ensures
        n as nat == hits((name@, min), feats_view(fs@)),
{
    let key = trim_str(name);
    let mut n: usize = 0;
    let mut i: usize = 0;
    while i < fs.len()
        invariant
            i <= fs@.len(),
            key@ == trim(name@),
            n <= i,
            n as nat == hits((name@, min), feats_view(fs@).subrange(0, i as int)),
        decreases fs@.len() - i,
    {
        let fk = trim_str(fs[i].0.as_str());
        let hit = crate::symbolic_program::str_eq(fk.as_str(), key.as_str()) && min <= fs[i].1;
        proof {
            let pre = feats_view(fs@).subrange(0, i as int);
            let post = feats_view(fs@).subrange(0, i as int + 1);
            assert(post.drop_last() =~= pre);
            assert(post.last() == (fs@[i as int].0@, fs@[i as int].1));
        }
        if hit {
            n = n + 1;
        }
        i = i + 1;
    }
    assert(feats_view(fs@).subrange(0, fs@.len() as int) =~= feats_view(fs@));
    n
}

/// Whether a rule matches the features (see `rule_matches`).
fn matches_rule(rule: &ExpertRule, fs: &Vec<(String, i64)>) -> (b: bool)
    ensures
        b == rule_matches(rule@, feats_view(fs@)),
{
    let mins = &rule.min_features;
    if mins.len() == 0 {
        return true;
    }
    let mut total: u128 = 0;
    let mut i: usize = 0;
    let nf: usize = fs.len();
    let nm: usize = mins.len();
    while i < nm
        invariant
            i <= nm,
            nm == mins@.len(),
            nf == fs@.len(),
            total as nat == satisfied(feats_view(mins@).subrange(0, i as int), feats_view(fs@)),
            total as int <= (i as int) * (nf as int),
        decreases nm - i,
    {
        let h = count_hits(mins[i].0.as_str(), mins[i].1, fs);
        proof {
            let pre = feats_view(mins@).subrange(0, i as int);
            let post = feats_view(mins@).subrange(0, i as int + 1);
            assert(post.drop_last() =~= pre);
            assert(post.last() == (mins@[i as int].0@, mins@[i as int].1));
            lemma_hits_bound((mins@[i as int].0@, mins@[i as int].1), feats_view(fs@));
            let ti = total as int;
            let hi = h as int;
            let ii = i as int;
            let ni = nf as int;
            assert(ti + hi <= (ii + 1) * ni) by (nonlinear_arith)
                requires
                    ti <= ii * ni,
                    hi <= ni,
            ;
            assert((ii + 1) * ni <= 0xffff_ffff_ffff_ffffint * 0xffff_ffff_ffff_ffffint) by (nonlinear_arith)
                requires
                    0 <= ii + 1 <= 0xffff_ffff_ffff_ffff,
                    0 <= ni <= 0xffff_ffff_ffff_ffff,
            ;
        }
        total = total + h as u128;
        i = i + 1;
    }
    assert(feats_view(mins@).subrange(0, mins@.len() as int) =~= feats_view(mins@));
    total == mins.len() as u128
}

proof fn lemma_hits_bound(m: (Seq<char>, i64), fs: Seq<(Seq<char>, i64)>)
    ensures
        hits(m, fs) <= fs.len(),
    decreases fs.len(),
{
    if fs.len() > 0 {
        lemma_hits_bound(m, fs.drop_last());
    }
}

fn sat_add_exec(a: u32, b: u32) -> (r: u32)
    ensures
        r == sat_add(a, b),
{
    a.saturating_add(b)
}

/// Refuses the first rule with a blank id or feature name (see `rules_fault`).
fn check_rules(rules: &Vec<ExpertRule>) -> (r: Result<(), HelixError>)
    ensures
        match rules_fault(expert_rules_view(rules@)) {
            Some(e) => r matches Err(x) && x@ == e,
            None => r is Ok,
        },
{
    let mut i: usize = 0;
    assert(expert_rules_view(rules@).subrange(0, 0) =~= Seq::<ExpertRuleView>::empty());
    while i < rules.len()
        invariant
            i <= rules@.len(),
            rules_fault(expert_rules_view(rules@).subrange(0, i as int)) is None,
        decreases rules@.len() - i,
    {
        let ghost pre = expert_rules_view(rules@).subrange(0, i as int);
        let ghost post = expert_rules_view(rules@).subrange(0, i as int + 1);
        proof {
            assert(post.drop_last() =~= pre);
            assert(post.last() == rules@[i as int]@);
        }
        match normalize_non_empty(rules[i].id.as_str(), "reasoning.rules", "rule id") {
            Ok(_) => {},
            Err(e) => {
                proof {
                    lemma_rules_fault_prefix(expert_rules_view(rules@), i as int + 1);
                }
                return Err(e);
            },
        }
        if !all_named_exec(&rules[i].min_features) {
            proof {
                lemma_rules_fault_prefix(expert_rules_view(rules@), i as int + 1);
            }
            let mut m = String::from_str("expert rule feature name");
            push_str(&mut m, " must be non-empty");
            return Err(HelixError::validation_error("reasoning.rules", m.as_str()));
        }
        i = i + 1;
    }
    assert(expert_rules_view(rules@).subrange(0, rules@.len() as int) =~= expert_rules_view(rules@));
    Ok(())
}

proof fn lemma_rules_fault_prefix(v: Seq<ExpertRuleView>, k: int)
    requires
        0 <= k <= v.len(),
        rules_fault(v.subrange(0, k)) is Some,
    ensures
        rules_fault(v) == rules_fault(v.subrange(0, k)),
    decreases v.len(),
{
    if k == v.len() {
        assert(v.subrange(0, k) =~= v);
    } else {
        assert(v.drop_last().subrange(0, k) =~= v.subrange(0, k));
        lemma_rules_fault_prefix(v.drop_last(), k);
    }
}

/// The lower-case name of a verdict.
fn verdict_text(v: ReasoningVerdict) -> (s: &'static str)
    ensures
        s@ == verdict_name(v),
{
    match v {
        ReasoningVerdict::Allow => "allow",
        ReasoningVerdict::Review => "review",
        ReasoningVerdict::Deny => "deny",
    }
}

fn empty_trace(matched_rules: Vec<String>) -> (t: ReasoningTrace)
    ensures
        t.matched_rules == matched_rules,
        t.derived_facts@.len() == 0,
        t.symbolic_entailed is None,
        t.symbolic_status is None,
        t.program_fingerprint is None,
{
    ReasoningTrace {
        derived_facts: Vec::new(),
        matched_rules,
        symbolic_entailed: None,
        support_graph: Vec::new(),
        contradictions: Vec::new(),
        symbolic_status: None,
        symbolic_rounds: None,
        pending_rule_count: None,
        program_fingerprint: None,
        consistency_scope: None,
        query_support: Vec::new(),
        blocking_contradictions: Vec::new(),
    }
}

impl ExpertSystemKernel {
    /// Compiles the rules (a blank id or feature name is refused), checks the
    /// feature names (a blank one is refused), then tallies the votes of the
    /// matching rules.
    pub fn decide(features: Vec<(String, i64)>, rules: Vec<ExpertRule>) -> (r: Result<ReasoningDecision, HelixError>)
        ensures
            match rules_fault(expert_rules_view(rules@)) {
                Some(e) => r matches Err(x) && x@ == e,
                None => if !all_named(feats_view(features@)) {
                    r matches Err(x) && x@ == blank_fault("reasoning.features"@, "feature names"@)
                } else {
                    r matches Ok(d) && expert_decision_ok(expert_rules_view(rules@), feats_view(features@), d)
                },
            },
    {
        match check_rules(&rules) {
            Ok(()) => {},
            Err(e) => {
                return Err(e);
            },
        }
        if !all_named_exec(&features) {
            let mut m = String::from_str("feature names");
            push_str(&mut m, " must be non-empty");
            return Err(HelixError::validation_error("reasoning.features", m.as_str()));
        }
        let ghost rs = expert_rules_view(rules@);
        let ghost fs = feats_view(features@);
        let mut allow: u32 = 0;
        let mut review: u32 = 0;
        let mut deny: u32 = 0;
        let mut matched: Vec<String> = Vec::new();
        let mut i: usize = 0;
        assert(rs.subrange(0, 0) =~= Seq::<ExpertRuleView>::empty());
        assert(strs(matched@) =~= Seq::<Seq<char>>::empty());
        while i < rules.len()
            invariant
                i <= rules@.len(),
                rs == expert_rules_view(rules@),
                fs == feats_view(features@),
                allow == tally(rs.subrange(0, i as int), fs, ReasoningVerdict::Allow),
                review == tally(rs.subrange(0, i as int), fs, ReasoningVerdict::Review),
                deny == tally(rs.subrange(0, i as int), fs, ReasoningVerdict::Deny),
                strs(matched@) == matched_ids(rs.subrange(0, i as int), fs),
            decreases rules@.len() - i,
        {
            let ghost pre = rs.subrange(0, i as int);
            let ghost post = rs.subrange(0, i as int + 1);
            proof {
                assert(post.drop_last() =~= pre);
                assert(post.last() == rules@[i as int]@);
            }
            let rule = &rules[i];
            if matches_rule(rule, &features) {
                let id = trim_str(rule.id.as_str());
                let ghost mb = strs(matched@);
                matched.push(id);
                assert(strs(matched@) =~= mb.push(trim(rule.id@)));
                match rule.verdict {
                    ReasoningVerdict::Allow => {
                        allow = sat_add_exec(allow, rule.weight as u32);
                    },
                    ReasoningVerdict::Review => {
                        review = sat_add_exec(review, rule.weight as u32);
                    },
                    ReasoningVerdict::Deny => {
                        deny = sat_add_exec(deny, rule.weight as u32);
                    },
                }
            }
            i = i + 1;
        }
        assert(rs.subrange(0, rules@.len() as int) =~= rs);
        if matched.len() == 0 {
            return Ok(ReasoningDecision {
                backend: ReasoningBackend::ExpertSystem,
                verdict: ReasoningVerdict::Deny,
                confidence: Confidence { numerator: 1, denominator: 1 },
                rationale: String::from_str("no expert rules matched; fail-closed deny"),
                trace: empty_trace(matched),
            });
        }
        let verdict = select_verdict(allow, review, deny);
        let selected = match verdict {
            ReasoningVerdict::Allow => allow,
            ReasoningVerdict::Review => review,
            ReasoningVerdict::Deny => deny,
        };
        let total = sat_add_exec(sat_add_exec(allow, review), deny);
        let denominator: u64 = if total == 0 { 1 } else { total as u64 };
        let mut rationale = String::from_str("expert-system compiled vote selected ");
        push_str(&mut rationale, verdict_text(verdict));
        push_str(&mut rationale, " (allow=");
        let a = decimal_string(allow as usize);
        push_str(&mut rationale, a.as_str());
        push_str(&mut rationale, ", review=");
        let rv = decimal_string(review as usize);
        push_str(&mut rationale, rv.as_str());
        push_str(&mut rationale, ", deny=");
        let dv = decimal_string(deny as usize);
        push_str(&mut rationale, dv.as_str());
        push_str(&mut rationale, ")");
        Ok(ReasoningDecision {
            backend: ReasoningBackend::ExpertSystem,
            verdict,
            confidence: Confidence { numerator: selected as u64, denominator },
            rationale,
            trace: empty_trace(matched),
        })
    }
}

/// The selected verdict carries the largest weight: its weight is at least
/// each of the three. When weights tie at the top, deny goes before review
/// and review before allow, so allow wins only with a strictly larger weight.
pub proof fn law_vote_picks_heaviest_most_cautious(allow: u32, review: u32, deny: u32)
    ensures
        ({
            let v = select_verdict_spec(allow, review, deny);
            let w = match v {
                ReasoningVerdict::Allow => allow,
                ReasoningVerdict::Review => review,
                ReasoningVerdict::Deny => deny,
            };
            &&& w >= allow && w >= review && w >= deny
            &&& (deny >= allow && deny >= review) ==> v == ReasoningVerdict::Deny
            &&& (review >= allow && review > deny) ==> v == ReasoningVerdict::Review
            &&& v == ReasoningVerdict::Allow <==> (allow > review && allow > deny)
        }),
{
}

/// An expert decision on matched rules carries a verdict whose total weight
/// among the matched rules is at least that of every other verdict; a tie
/// at the top goes to the more cautious verdict.
pub proof fn law_expert_decision_is_heaviest_vote(rs: Seq<ExpertRuleView>, fs: Seq<(Seq<char>, i64)>, d: ReasoningDecision)
    requires
        expert_decision_ok(rs, fs, d),
        matched_ids(rs, fs).len() > 0,
    ensures
        tally(rs, fs, d.verdict) >= tally(rs, fs, ReasoningVerdict::Allow),
        tally(rs, fs, d.verdict) >= tally(rs, fs, ReasoningVerdict::Review),
        tally(rs, fs, d.verdict) >= tally(rs, fs, ReasoningVerdict::Deny),
        tally(rs, fs, ReasoningVerdict::Deny) >= tally(rs, fs, ReasoningVerdict::Allow) && tally(
            rs,
            fs,
            ReasoningVerdict::Deny,
        ) >= tally(rs, fs, ReasoningVerdict::Review) ==> d.verdict == ReasoningVerdict::Deny,
        d.verdict == ReasoningVerdict::Allow ==> tally(rs, fs, ReasoningVerdict::Allow) > tally(
            rs,
            fs,
            ReasoningVerdict::Review,
        ) && tally(rs, fs, ReasoningVerdict::Allow) > tally(rs, fs, ReasoningVerdict::Deny),
{
    law_vote_picks_heaviest_most_cautious(
        tally(rs, fs, ReasoningVerdict::Allow),
        tally(rs, fs, ReasoningVerdict::Review),
        tally(rs, fs, ReasoningVerdict::Deny),
    );
}

} // verus!
