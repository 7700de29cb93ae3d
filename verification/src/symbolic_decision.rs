//! Fail-closed symbolic decisions: a query is allowed only when a saturated
//! evaluation over every rule entails it and no blocking contradiction is found.

use vstd::prelude::*;
use crate::errors::{HelixError, HelixFault};
use crate::reasoning_types::{
    KrrTriple, ReasoningBackend, ReasoningConsistencyScope, ReasoningContradiction,
    ReasoningSupportNode, ReasoningSymbolicStatus, ReasoningVerdict, SymbolicRule,
    SymbolicReasoningKernel,
};
use crate::symbolic_eval::{
    closure_ok, evaluate, outputs_ok, SymbolicClosureStatus, SymbolicEvaluation,
    SymbolicEvaluationScope,
};
use crate::symbolic_fingerprint::{rules_view, triples_view};
use crate::symbolic_parse::{fact_parse, normalize_non_empty, normalized, starts_with_not};
use crate::symbolic_program::{
    facts_parse, parsed_fingerprint, program_parse, strs, CompiledSymbolicProgram,
};
use crate::text::{decimal, decimal_string, push_str, trim, trim_str, copy_string};

verus! {

/// A confidence in [0, 1], as the ratio `numerator / denominator`.
#[derive(Debug, Clone, Copy, PartialEq, Eq, Structural)]
pub struct Confidence {
    pub numerator: u64,
    pub denominator: u64,
}

/// Replay trace of a symbolic decision.
#[derive(Debug, Clone)]
pub struct ReasoningTrace {
    /// Closure facts, sorted.
    pub derived_facts: Vec<String>,
    /// Rules that fired, in firing order.
    pub matched_rules: Vec<String>,
    /// Whether the query was entailed.
    pub symbolic_entailed: Option<bool>,
    /// One node per closure fact.
    pub support_graph: Vec<ReasoningSupportNode>,
    /// Contradictions in the closure.
    pub contradictions: Vec<ReasoningContradiction>,
    /// Saturated or truncated.
    pub symbolic_status: Option<ReasoningSymbolicStatus>,
    /// Rounds run.
    pub symbolic_rounds: Option<usize>,
    /// Rules left ready at truncation.
    pub pending_rule_count: Option<usize>,
    /// Fingerprint of the program evaluated.
    pub program_fingerprint: Option<String>,
    /// Contradiction scope of the decision.
    pub consistency_scope: Option<ReasoningConsistencyScope>,
    /// Facts the query rests on.
    pub query_support: Vec<String>,
    /// Contradictions that blocked the verdict under the scope.
    pub blocking_contradictions: Vec<ReasoningContradiction>,
}

/// A reasoning decision.
#[derive(Debug, Clone)]
pub struct ReasoningDecision {
    pub backend: ReasoningBackend,
    pub verdict: ReasoningVerdict,
    pub confidence: Confidence,
    pub rationale: String,
    pub trace: ReasoningTrace,
}

/// The atom a fact text speaks of: trimmed, without a leading `not `.
pub open spec fn atom_key(v: Seq<char>) -> Seq<char> {
    let t = trim(v);
    if starts_with_not(t) {
        t.subrange(4, t.len() as int)
    } else {
        t
    }
}

/// The atom a fact text speaks of (see `atom_key`).
pub fn contradiction_atom_key(value: &str) -> (r: String)
    ensures
        r@ == atom_key(value@),
{
    let t = trim_str(value);
    let n = t.as_str().unicode_len();
    if n >= 4 && t.as_str().get_char(0) == 'n' && t.as_str().get_char(1) == 'o' && t.as_str().get_char(2) == 't'
        && t.as_str().get_char(3) == ' ' {
        assert(t@.subrange(0, 4) =~= crate::symbolic_parse::not_prefix());
        String::from_str(t.as_str().substring_char(4, n))
    } else {
        proof {
            if n >= 4 && t@.subrange(0, 4) == crate::symbolic_parse::not_prefix() {
                assert(t@[0] == t@.subrange(0, 4)[0]);
                assert(t@[1] == t@.subrange(0, 4)[1]);
                assert(t@[2] == t@.subrange(0, 4)[2]);
                assert(t@[3] == t@.subrange(0, 4)[3]);
            }
        }
        t
    }
}

pub open spec fn pairs_view(cs: Seq<ReasoningContradiction>) -> Seq<(Seq<char>, Seq<char>)> {
    cs.map_values(|c: ReasoningContradiction| (c.positive@, c.negative@))
}

/// Some fact of `qs` speaks of atom `k`.
pub open spec fn supports_key(qs: Seq<Seq<char>>, k: Seq<char>) -> bool {
    exists|i: int| 0 <= i < qs.len() && atom_key(qs[i]) == k
}

/// The contradictions that block a decision: all of them under the global
/// scope; under the query-support scope, those whose atom the query rests on.
pub open spec fn blocking_pairs(
    cs: Seq<(Seq<char>, Seq<char>)>,
    qs: Seq<Seq<char>>,
    scope: ReasoningConsistencyScope,
) -> Seq<(Seq<char>, Seq<char>)>
    decreases cs.len(),
{
    if scope is Global {
        cs
    } else if cs.len() == 0 {
        cs
    } else if supports_key(qs, atom_key(cs.last().0)) {
        blocking_pairs(cs.drop_last(), qs, scope).push(cs.last())
    } else {
        blocking_pairs(cs.drop_last(), qs, scope)
    }
}

fn copy_contradiction(c: &ReasoningContradiction) -> (r: ReasoningContradiction)
    ensures
        r.positive@ == c.positive@,
        r.negative@ == c.negative@,
{
    ReasoningContradiction { positive: copy_string(&c.positive), negative: copy_string(&c.negative) }
}

/// The contradictions that block a decision (see `blocking_pairs`).
pub fn filter_blocking_contradictions(
    contradictions: &Vec<ReasoningContradiction>,
    query_support: &Vec<String>,
    consistency_scope: ReasoningConsistencyScope,
) -> (r: Vec<ReasoningContradiction>)
    ensures
        pairs_view(r@) == blocking_pairs(pairs_view(contradictions@), strs(query_support@), consistency_scope),
{
    let ghost qs = strs(query_support@);
    let mut keys: Vec<String> = Vec::new();
    let mut i: usize = 0;
    while i < query_support.len()
        invariant
            i <= query_support@.len(),
            qs == strs(query_support@),
            keys@.len() == i,
            forall|k: int| 0 <= k < i ==> (#[trigger] keys@[k])@ == atom_key(qs[k]),
        decreases query_support@.len() - i,
    {
        keys.push(contradiction_atom_key(query_support[i].as_str()));
        i = i + 1;
    }
    let mut out: Vec<ReasoningContradiction> = Vec::new();
    let mut j: usize = 0;
    assert(pairs_view(contradictions@).subrange(0, 0) =~= Seq::<(Seq<char>, Seq<char>)>::empty());
    assert(pairs_view(out@) =~= Seq::<(Seq<char>, Seq<char>)>::empty());
    while j < contradictions.len()
        invariant
            j <= contradictions@.len(),
            qs == strs(query_support@),
            keys@.len() == qs.len(),
            forall|k: int| 0 <= k < keys@.len() ==> (#[trigger] keys@[k])@ == atom_key(qs[k]),
            pairs_view(out@) == blocking_pairs(
                pairs_view(contradictions@).subrange(0, j as int),
                qs,
                consistency_scope,
            ) || (consistency_scope is Global && pairs_view(out@) == pairs_view(contradictions@).subrange(
                0,
                j as int,
            )),
            consistency_scope is Global ==> pairs_view(out@) == pairs_view(contradictions@).subrange(0, j as int),
        decreases contradictions@.len() - j,
    {
        let c = &contradictions[j];
        let ghost pre = pairs_view(contradictions@).subrange(0, j as int);
        let ghost post = pairs_view(contradictions@).subrange(0, j as int + 1);
        proof {
            assert(post.drop_last() =~= pre);
            assert(post.last() == (c.positive@, c.negative@));
        }
        let keep = match consistency_scope {
            ReasoningConsistencyScope::Global => true,
            ReasoningConsistencyScope::QuerySupport => {
                let k = contradiction_atom_key(c.positive.as_str());
                let mut found = false;
                let mut x: usize = 0;
                while x < keys.len()
                    invariant
                        x <= keys@.len(),
                        keys@.len() == qs.len(),
                        forall|q: int| 0 <= q < keys@.len() ==> (#[trigger] keys@[q])@ == atom_key(qs[q]),
                        found == exists|q: int| 0 <= q < x && atom_key(qs[q]) == k@,
                    decreases keys@.len() - x,
                {
                    if crate::symbolic_program::str_eq(keys[x].as_str(), k.as_str()) {
                        found = true;
                    }
                    proof {
                        assert(keys@[x as int]@ == atom_key(qs[x as int]));
                    }
                    x = x + 1;
                }
                assert(found == supports_key(qs, atom_key(c.positive@)));
                found
            },
        };
        let ghost ob = pairs_view(out@);
        if keep {
            out.push(copy_contradiction(c));
            assert(pairs_view(out@) =~= ob.push((c.positive@, c.negative@)));
        }
        j = j + 1;
    }
    assert(pairs_view(contradictions@).subrange(0, contradictions@.len() as int) =~= pairs_view(contradictions@));
    out
}

/// The closure status as reported in a trace.
pub open spec fn status_of(s: SymbolicClosureStatus) -> ReasoningSymbolicStatus {
    match s {
        SymbolicClosureStatus::Saturated => ReasoningSymbolicStatus::Saturated,
        SymbolicClosureStatus::Truncated => ReasoningSymbolicStatus::Truncated,
    }
}

/// The blocking contradictions of an evaluation under a scope.
pub open spec fn blocking_of(ev: SymbolicEvaluation, scope: ReasoningConsistencyScope) -> Seq<(Seq<char>, Seq<char>)> {
    blocking_pairs(pairs_view(ev.contradictions@), strs(ev.query_support@), scope)
}

/// A trace that reports an evaluation.
pub open spec fn trace_of(t: ReasoningTrace, ev: SymbolicEvaluation, fingerprint: Seq<char>, scope: ReasoningConsistencyScope) -> bool {
    &&& t.derived_facts == ev.derived_facts
    &&& t.matched_rules == ev.matched_rules
    &&& t.symbolic_entailed == Some(ev.entailed)
    &&& t.support_graph == ev.support_graph
    &&& t.contradictions == ev.contradictions
    &&& t.symbolic_status == Some(status_of(ev.closure_status))
    &&& t.symbolic_rounds == Some(ev.rounds_executed)
    &&& t.pending_rule_count == Some(ev.pending_rule_count)
    &&& (t.program_fingerprint matches Some(f) && f@ == fingerprint)
    &&& t.consistency_scope == Some(scope)
    &&& t.query_support == ev.query_support
    &&& pairs_view(t.blocking_contradictions@) == blocking_of(ev, scope)
}

/// The rationale of a symbolic decision when none is imposed.
pub open spec fn default_rationale(query: Seq<char>, ev: SymbolicEvaluation, scope: ReasoningConsistencyScope) -> Seq<char> {
    if ev.closure_status is Truncated {
        "symbolic evaluation truncated before saturation; fail-closed deny"@
    } else if blocking_of(ev, scope).len() > 0 {
        "symbolic contradiction detected; fail-closed deny"@
    } else if ev.entailed {
        "symbolic query entailed: "@ + query + " via "@ + decimal(ev.matched_rules@.len()) + " compiled rules"@
    } else {
        "symbolic query not entailed: "@ + query
    }
}

/// A symbolic decision on an evaluation: deny when truncated or blocked,
/// allow when entailed, deny otherwise; full confidence except for a plain
/// non-entailment.
pub open spec fn decision_of(
    d: ReasoningDecision,
    query: Seq<char>,
    ev: SymbolicEvaluation,
    fingerprint: Seq<char>,
    scope: ReasoningConsistencyScope,
    rationale: Option<Seq<char>>,
) -> bool {
    let truncated = ev.closure_status is Truncated;
    let blocked = blocking_of(ev, scope).len() > 0;
    &&& d.backend is KrrSymbolic
    &&& d.verdict == (if truncated || blocked {
        ReasoningVerdict::Deny
    } else if ev.entailed {
        ReasoningVerdict::Allow
    } else {
        ReasoningVerdict::Deny
    })
    &&& d.confidence == (if truncated || blocked || ev.entailed {
        Confidence { numerator: 1, denominator: 1 }
    } else {
        Confidence { numerator: 0, denominator: 1 }
    })
    &&& d.rationale@ == (match rationale {
        Some(s) => s,
        None => default_rationale(query, ev, scope),
    })
    &&& trace_of(d.trace, ev, fingerprint, scope)
}

/// Builds the decision for an evaluation (see `decision_of`).
pub fn build_symbolic_decision(
    query: String,
    symbolic: SymbolicEvaluation,
    program_fingerprint: &str,
    consistency_scope: ReasoningConsistencyScope,
    rationale_override: Option<String>,
) -> (d: ReasoningDecision)
    ensures
        decision_of(
            d,
            query@,
            symbolic,
            program_fingerprint@,
            consistency_scope,
            match rationale_override {
                Some(s) => Some(s@),
                None => None,
            },
        ),
{
    let blocking = filter_blocking_contradictions(&symbolic.contradictions, &symbolic.query_support, consistency_scope);
    let blocked = blocking.len() > 0;
    let truncated = match symbolic.closure_status {
        SymbolicClosureStatus::Truncated => true,
        SymbolicClosureStatus::Saturated => false,
    };
    let entailed = symbolic.entailed;
    let verdict = if truncated || blocked {
        ReasoningVerdict::Deny
    } else if entailed {
        ReasoningVerdict::Allow
    } else {
        ReasoningVerdict::Deny
    };
    let confidence = if truncated || blocked || entailed {
        Confidence { numerator: 1, denominator: 1 }
    } else {
        Confidence { numerator: 0, denominator: 1 }
    };
    let rationale = match rationale_override {
        Some(s) => s,
        None => {
            if truncated {
                String::from_str("symbolic evaluation truncated before saturation; fail-closed deny")
            } else if blocked {
                String::from_str("symbolic contradiction detected; fail-closed deny")
            } else if entailed {
                let mut s = String::from_str("symbolic query entailed: ");
                push_str(&mut s, query.as_str());
                push_str(&mut s, " via ");
                let n = decimal_string(symbolic.matched_rules.len());
                push_str(&mut s, n.as_str());
                push_str(&mut s, " compiled rules");
                s
            } else {
                let mut s = String::from_str("symbolic query not entailed: ");
                push_str(&mut s, query.as_str());
                s
            }
        },
    };
    let status = match symbolic.closure_status {
        SymbolicClosureStatus::Saturated => ReasoningSymbolicStatus::Saturated,
        SymbolicClosureStatus::Truncated => ReasoningSymbolicStatus::Truncated,
    };
    let trace = ReasoningTrace {
        derived_facts: symbolic.derived_facts,
        matched_rules: symbolic.matched_rules,
        symbolic_entailed: Some(entailed),
        support_graph: symbolic.support_graph,
        contradictions: symbolic.contradictions,
        symbolic_status: Some(status),
        symbolic_rounds: Some(symbolic.rounds_executed),
        pending_rule_count: Some(symbolic.pending_rule_count),
        program_fingerprint: Some(String::from_str(program_fingerprint)),
        consistency_scope: Some(consistency_scope),
        query_support: symbolic.query_support,
        blocking_contradictions: blocking,
    };
    ReasoningDecision { backend: ReasoningBackend::KrrSymbolic, verdict, confidence, rationale, trace }
}

/// The round bound: 16 by default; zero is refused.
pub fn resolve_max_rounds(max_rounds: Option<u8>) -> (r: Result<usize, HelixError>)
    ensures
        match max_rounds {
            Some(0) => r matches Err(e) && e@ == HelixFault::Validation(
                "reasoning.max_rounds"@,
                "max_rounds must be greater than zero"@,
            ),
            Some(v) => r == Ok::<usize, HelixError>(v as usize),
            None => r == Ok::<usize, HelixError>(16),
        },
{
    match max_rounds {
        Some(0) => Err(HelixError::validation_error("reasoning.max_rounds", "max_rounds must be greater than zero")),
        Some(v) => Ok(v as usize),
        None => Ok(16),
    }
}

/// The largest program and fact list an evaluation takes: the literal
/// table, the rule nodes, the facts and two more must be numbered by a
/// machine word.
pub open spec fn within_limits(p: CompiledSymbolicProgram, facts: nat) -> bool {
    p.syms().len() + p.rule_count() + facts + 2 <= usize::MAX
}

/// Evaluates `query` and `facts` against a compiled program within machine limits.
pub fn evaluate_compiled_symbolic(
    program: &CompiledSymbolicProgram,
    query: &str,
    facts: &Vec<String>,
    max_rounds: usize,
    scope: SymbolicEvaluationScope,
) -> (r: Result<SymbolicEvaluation, HelixError>)
    requires
        program.wf(),
    ensures
        !within_limits(*program, facts@.len()) ==> (r matches Err(e) && e is InternalError),
        within_limits(*program, facts@.len()) ==> match fact_parse(query@, "reasoning.query"@, "query"@) {
            Err(e) => r matches Err(x) && x@ == e,
            Ok(q) => match facts_parse(strs(facts@), "reasoning.facts"@, "fact entries"@) {
                Err(e) => r matches Err(x) && x@ == e,
                Ok(ins) => (r matches Ok(ev) && closure_ok(*program, q, ins, scope, max_rounds, ev)
                    && outputs_ok(*program, q, ev)),
            },
        },
{
    let ns = program.symbols().len();
    let nr = program.rule_total();
    let nf = facts.len();
    if ns > usize::MAX - 2 || nr > usize::MAX - 2 - ns || nf > usize::MAX - 2 - ns - nr {
        return Err(HelixError::InternalError(String::from_str("symbolic program exceeds machine limits")));
    }
    evaluate(program, query, facts, max_rounds, scope)
}


/// What a symbolic decision on a normalized query promises: the query-directed
/// evaluation decides unless it entails the query without truncation or
/// blocking contradiction; then an evaluation over every rule decides.
pub open spec fn symbolic_reasoning_ok(
    p: CompiledSymbolicProgram,
    qn: Seq<char>,
    facts: Seq<Seq<char>>,
    scope: ReasoningConsistencyScope,
    rounds: usize,
    d: ReasoningDecision,
) -> bool {
    let fp = p.fingerprint_view();
    match fact_parse(qn, "reasoning.query"@, "query"@) {
        Err(_) => false,
        Ok(q) => match facts_parse(facts, "reasoning.facts"@, "fact entries"@) {
            Err(_) => false,
            Ok(ins) => exists|ev1: SymbolicEvaluation|
                closure_ok(p, q, ins, SymbolicEvaluationScope::QueryDirected, rounds, ev1) && outputs_ok(p, q, ev1) && (
                if ev1.closure_status is Truncated {
                    decision_of(
                        d,
                        qn,
                        ev1,
                        fp,
                        scope,
                        Some("symbolic query evaluation truncated before saturation; fail-closed deny"@),
                    )
                } else if !ev1.entailed || blocking_of(ev1, scope).len() > 0 {
                    decision_of(d, qn, ev1, fp, scope, None)
                } else {
                    exists|ev2: SymbolicEvaluation|
                        closure_ok(p, q, ins, SymbolicEvaluationScope::Full, rounds, ev2) && outputs_ok(p, q, ev2)
                            && decision_of(
                            d,
                            qn,
                            ev2,
                            fp,
                            scope,
                            if ev2.closure_status is Truncated {
                                Some("symbolic consistency evaluation truncated before saturation; fail-closed deny"@)
                            } else {
                                None
                            },
                        )
                }),
        },
    }
}

/// What deciding `query` over `facts` with a compiled program gives: the
/// query's and the bound's errors, a resource error beyond the program's
/// limits, the parse errors of query and facts, or a decision as
/// `symbolic_reasoning_ok` describes it.
pub open spec fn evaluation_outcome(
    program: CompiledSymbolicProgram,
    query: Seq<char>,
    facts: Seq<String>,
    consistency_scope: Option<ReasoningConsistencyScope>,
    max_rounds: Option<u8>,
    r: Result<ReasoningDecision, HelixError>,
) -> bool {
    match normalized(query, "reasoning.query"@, "query"@) {
        Err(e) => r matches Err(x) && x@ == e,
        Ok(qn) => match max_rounds {
            Some(0) => r matches Err(x) && x@ == HelixFault::Validation(
                "reasoning.max_rounds"@,
                "max_rounds must be greater than zero"@,
            ),
            _ => {
                let rounds: usize = match max_rounds {
                    Some(v) => v as usize,
                    None => 16,
                };
                let scope = match consistency_scope {
                    Some(s) => s,
                    None => ReasoningConsistencyScope::Global,
                };
                &&& !within_limits(program, facts.len()) ==> (r matches Err(x) && x is InternalError)
                &&& within_limits(program, facts.len()) ==> match fact_parse(qn, "reasoning.query"@, "query"@) {
                    Err(e) => r matches Err(x) && x@ == e,
                    Ok(q) => match facts_parse(strs(facts), "reasoning.facts"@, "fact entries"@) {
                        Err(e) => r matches Err(x) && x@ == e,
                        Ok(ins) => (r matches Ok(d) && symbolic_reasoning_ok(
                            program,
                            qn,
                            strs(facts),
                            scope,
                            rounds,
                            d,
                        )),
                    },
                }
            },
        },
    }
}

/// Decides a symbolic query against a compiled program: trims the query
/// (a blank one is refused), resolves the round bound, evaluates the rules the
/// query depends on and, when that entails the query cleanly, every rule.
pub fn evaluate_compiled_symbolic_reasoning(
    query: String,
    facts: Vec<String>,
    program: &CompiledSymbolicProgram,
    consistency_scope: Option<ReasoningConsistencyScope>,
    max_rounds: Option<u8>,
) -> (r: Result<ReasoningDecision, HelixError>)
    requires
        program.wf(),
    ensures
        evaluation_outcome(*program, query@, facts@, consistency_scope, max_rounds, r),
{
    let query = match normalize_non_empty(query.as_str(), "reasoning.query", "query") {
        Ok(q) => q,
        Err(e) => {
            return Err(e);
        },
    };
    let rounds = match resolve_max_rounds(max_rounds) {
        Ok(n) => n,
        Err(e) => {
            return Err(e);
        },
    };
    let scope = match consistency_scope {
        Some(s) => s,
        None => ReasoningConsistencyScope::Global,
    };
    let relevant = match evaluate_compiled_symbolic(program, query.as_str(), &facts, rounds, SymbolicEvaluationScope::QueryDirected) {
        Ok(ev) => ev,
        Err(e) => {
            return Err(e);
        },
    };
    let ghost ev1 = relevant;
    let truncated = match relevant.closure_status {
        SymbolicClosureStatus::Truncated => true,
        SymbolicClosureStatus::Saturated => false,
    };
    if truncated {
        let d = build_symbolic_decision(
            copy_string(&query),
            relevant,
            program.fingerprint(),
            scope,
            Some(String::from_str("symbolic query evaluation truncated before saturation; fail-closed deny")),
        );
        return Ok(d);
    }
    let blocking = filter_blocking_contradictions(&relevant.contradictions, &relevant.query_support, scope);
    if !relevant.entailed || blocking.len() > 0 {
        let d = build_symbolic_decision(copy_string(&query), relevant, program.fingerprint(), scope, None);
        return Ok(d);
    }
    let symbolic = match evaluate_compiled_symbolic(program, query.as_str(), &facts, rounds, SymbolicEvaluationScope::Full) {
        Ok(ev) => ev,
        Err(e) => {
            return Err(e);
        },
    };
    let ghost ev2 = symbolic;
    let rationale = match symbolic.closure_status {
        SymbolicClosureStatus::Truncated => Some(
            String::from_str("symbolic consistency evaluation truncated before saturation; fail-closed deny"),
        ),
        SymbolicClosureStatus::Saturated => None,
    };
    let d = build_symbolic_decision(copy_string(&query), symbolic, program.fingerprint(), scope, rationale);
    Ok(d)
}

/// Compiles rules and triples into a program (see `CompiledSymbolicProgram::compile`).
pub fn compile_symbolic_program(rules: Vec<SymbolicRule>, triples: Vec<KrrTriple>) -> (r: Result<
    CompiledSymbolicProgram,
    HelixError,
>)
    ensures
        match program_parse(rules_view(rules@), triples_view(triples@)) {
            Err(e) => r matches Err(x) && x@ == e,
            Ok(d) => r matches Ok(p) && p.wf() && p.models(d) && p.fingerprint_view() == parsed_fingerprint(d),
        },
{
    CompiledSymbolicProgram::compile(rules, triples)
}

impl SymbolicReasoningKernel {
    /// Compiles the rules and triples, then decides the query over the facts
    /// with the global consistency scope and a bound of 16 rounds.
    pub fn decide(query: String, facts: Vec<String>, rules: Vec<SymbolicRule>, triples: Vec<KrrTriple>) -> (r: Result<
        ReasoningDecision,
        HelixError,
    >)
        ensures
            match program_parse(rules_view(rules@), triples_view(triples@)) {
                Err(e) => r matches Err(x) && x@ == e,
                Ok(d) => exists|p: CompiledSymbolicProgram|
                    p.wf() && p.models(d) && #[trigger] evaluation_outcome(p, query@, facts@, None, Some(16u8), r),
            },
    {
        let program = match compile_symbolic_program(rules, triples) {
            Ok(p) => p,
            Err(e) => {
                return Err(e);
            },
        };
        let ghost q = query@;
        let ghost fs = facts@;
        let r = evaluate_compiled_symbolic_reasoning(query, facts, &program, None, Some(16));
        assert(evaluation_outcome(program, q, fs, None, Some(16u8), r));
        r
    }
}

} // verus!
