//! The symbolic gate of a neuro-symbolic decision: the neural score may only
//! allow or ask for review once a saturated, consistent evaluation entails
//! the query; otherwise the decision is a deny, whatever the score.

use vstd::prelude::*;
use crate::errors::HelixError;
use crate::reasoning_types::{ReasoningConsistencyScope, ReasoningVerdict};
use crate::symbolic_decision::{
    blocking_of, build_symbolic_decision, evaluate_compiled_symbolic, filter_blocking_contradictions, trace_of,
    within_limits, ReasoningTrace,
};
use crate::symbolic_eval::{closure_ok, outputs_ok, SymbolicClosureStatus, SymbolicEvaluation, SymbolicEvaluationScope};
use crate::symbolic_parse::fact_parse;
use crate::symbolic_program::{facts_parse, strs, CompiledSymbolicProgram};
use crate::text::copy_string;

verus! {

/// A neuro-symbolic decision before its confidence is scored.
#[derive(Debug, Clone)]
pub struct GatedDecision {
    /// The verdict.
    pub verdict: ReasoningVerdict,
    /// Why.
    pub rationale: String,
    /// The symbolic evaluation that decided.
    pub trace: ReasoningTrace,
    /// Whether the neural score decided the verdict.
    pub neural_decides: bool,
}

/// A denial by the symbolic gate, reporting `ev`.
pub open spec fn gate_denial(g: GatedDecision, ev: SymbolicEvaluation, fp: Seq<char>, scope: ReasoningConsistencyScope, why: Seq<char>) -> bool {
    &&& g.verdict == ReasoningVerdict::Deny
    &&& g.rationale@ == why
    &&& trace_of(g.trace, ev, fp, scope)
    &&& !g.neural_decides
}

/// Why one evaluation denies the query, if it does: truncation, then a
/// blocking contradiction, then a failed entailment.
pub open spec fn gate_fault(ev: SymbolicEvaluation, scope: ReasoningConsistencyScope, truncated_why: Seq<char>) -> Option<Seq<char>> {
    if ev.closure_status is Truncated {
        Some(truncated_why)
    } else if blocking_of(ev, scope).len() > 0 {
        Some("symbolic contradiction detected; denying regardless of neural score"@)
    } else if !ev.entailed {
        Some("symbolic gate failed; denying regardless of neural score"@)
    } else {
        None
    }
}

/// What a gated decision promises: the query-directed evaluation denies on
/// truncation, contradiction or failed entailment; then the evaluation over
/// every rule does the same; then the neural score allows when it passes its
/// threshold and asks for review otherwise.
pub open spec fn gate_ok(
    p: CompiledSymbolicProgram,
    qn: Seq<char>,
    facts: Seq<Seq<char>>,
    scope: ReasoningConsistencyScope,
    rounds: usize,
    neural_passes: bool,
    g: GatedDecision,
) -> bool {
    let fp = p.fingerprint_view();
    match fact_parse(qn, "reasoning.query"@, "query"@) {
        Err(_) => false,
        Ok(q) => match facts_parse(facts, "reasoning.facts"@, "fact entries"@) {
            Err(_) => false,
            Ok(ins) => exists|ev1: SymbolicEvaluation|
                closure_ok(p, q, ins, SymbolicEvaluationScope::QueryDirected, rounds, ev1) && outputs_ok(p, q, ev1)
                    && match gate_fault(
                    ev1,
                    scope,
                    "symbolic query evaluation truncated before saturation; denying regardless of neural score"@,
                ) {
                    Some(why) => gate_denial(g, ev1, fp, scope, why),
                    None => exists|ev2: SymbolicEvaluation|
                        closure_ok(p, q, ins, SymbolicEvaluationScope::Full, rounds, ev2) && outputs_ok(p, q, ev2)
                            && match gate_fault(
                            ev2,
                            scope,
                            "symbolic consistency evaluation truncated before saturation; denying regardless of neural score"@,
                        ) {
                            Some(why) => gate_denial(g, ev2, fp, scope, why),
                            None => {
                                &&& g.neural_decides
                                &&& trace_of(g.trace, ev2, fp, scope)
                                &&& if neural_passes {
                                    g.verdict == ReasoningVerdict::Allow && g.rationale@
                                        == "symbolic gate passed and neural confidence exceeded threshold"@
                                } else {
                                    g.verdict == ReasoningVerdict::Review && g.rationale@
                                        == "symbolic gate passed but neural confidence below allow threshold"@
                                }
                            },
                        },
                },
        },
    }
}

/// Packs an evaluation into a gated decision with the given verdict and rationale.
fn gated(
    query: &String,
    ev: SymbolicEvaluation,
    program: &CompiledSymbolicProgram,
    scope: ReasoningConsistencyScope,
    verdict: ReasoningVerdict,
    why: &str,
    neural_decides: bool,
) -> (g: GatedDecision)
    requires
        program.wf(),
    ensures
        g.verdict == verdict,
        g.rationale@ == why@,
        trace_of(g.trace, ev, program.fingerprint_view(), scope),
        g.neural_decides == neural_decides,
{
    let d = build_symbolic_decision(copy_string(query), ev, program.fingerprint(), scope, Some(String::from_str(why)));
    GatedDecision { verdict, rationale: d.rationale, trace: d.trace, neural_decides }
}

/// Runs the symbolic gate of a neuro-symbolic decision on a normalized query
/// within a round bound; `neural_passes` tells whether the neural
/// probability reached its threshold (see `gate_ok`).
pub fn evaluate_neuro_symbolic_gate(
    query: String,
    facts: Vec<String>,
    program: &CompiledSymbolicProgram,
    rounds: usize,
    scope: ReasoningConsistencyScope,
    neural_passes: bool,
) -> (r: Result<GatedDecision, HelixError>)
    requires
        program.wf(),
    ensures
        !within_limits(*program, facts@.len()) ==> (r matches Err(x) && x is InternalError),
        within_limits(*program, facts@.len()) ==> match fact_parse(query@, "reasoning.query"@, "query"@) {
            Err(e) => r matches Err(x) && x@ == e,
            Ok(q) => match facts_parse(strs(facts@), "reasoning.facts"@, "fact entries"@) {
                Err(e) => r matches Err(x) && x@ == e,
                Ok(ins) => (r matches Ok(g) && gate_ok(*program, query@, strs(facts@), scope, rounds, neural_passes, g)),
            },
        },
{
    let relevant = match evaluate_compiled_symbolic(
        program,
        query.as_str(),
        &facts,
        rounds,
        SymbolicEvaluationScope::QueryDirected,
    ) {
        Ok(ev) => ev,
        Err(e) => {
            return Err(e);
        },
    };
    let ghost ev1 = relevant;
    let truncated = match relevant.closure_status {
        SymbolicClosureStatus::Truncated => true,
        SymbolicClosureStatus::Saturated => false,
    };
    if truncated {
        let g = gated(
            &query,
            relevant,
            program,
            scope,
            ReasoningVerdict::Deny,
            "symbolic query evaluation truncated before saturation; denying regardless of neural score",
            false,
        );
        return Ok(g);
    }
    let blocking = filter_blocking_contradictions(&relevant.contradictions, &relevant.query_support, scope);
    if blocking.len() > 0 {
        let g = gated(
            &query,
            relevant,
            program,
            scope,
            ReasoningVerdict::Deny,
            "symbolic contradiction detected; denying regardless of neural score",
            false,
        );
        return Ok(g);
    }
    if !relevant.entailed {
        let g = gated(
            &query,
            relevant,
            program,
            scope,
            ReasoningVerdict::Deny,
            "symbolic gate failed; denying regardless of neural score",
            false,
        );
        return Ok(g);
    }
    let symbolic = match evaluate_compiled_symbolic(program, query.as_str(), &facts, rounds, SymbolicEvaluationScope::Full) {
        Ok(ev) => ev,
        Err(e) => {
            return Err(e);
        },
    };
    let ghost ev2 = symbolic;
    let truncated2 = match symbolic.closure_status {
        SymbolicClosureStatus::Truncated => true,
        SymbolicClosureStatus::Saturated => false,
    };
    let blocking2 = filter_blocking_contradictions(&symbolic.contradictions, &symbolic.query_support, scope);
    let g = if truncated2 {
        gated(
            &query,
            symbolic,
            program,
            scope,
            ReasoningVerdict::Deny,
            "symbolic consistency evaluation truncated before saturation; denying regardless of neural score",
            false,
        )
    } else if blocking2.len() > 0 {
        gated(
            &query,
            symbolic,
            program,
            scope,
            ReasoningVerdict::Deny,
            "symbolic contradiction detected; denying regardless of neural score",
            false,
        )
    } else if !symbolic.entailed {
        gated(
            &query,
            symbolic,
            program,
            scope,
            ReasoningVerdict::Deny,
            "symbolic gate failed; denying regardless of neural score",
            false,
        )
    } else if neural_passes {
        gated(
            &query,
            symbolic,
            program,
            scope,
            ReasoningVerdict::Allow,
            "symbolic gate passed and neural confidence exceeded threshold",
            true,
        )
    } else {
        gated(
            &query,
            symbolic,
            program,
            scope,
            ReasoningVerdict::Review,
            "symbolic gate passed but neural confidence below allow threshold",
            true,
        )
    };
    Ok(g)
}

/// The neural score never overrides the symbolic gate: a gated decision
/// that allows comes from a saturated, contradiction-free evaluation over
/// every rule that entails the query, with a passing neural score.
pub proof fn law_neural_score_never_overrides_gate(
    p: CompiledSymbolicProgram,
    qn: Seq<char>,
    facts: Seq<Seq<char>>,
    scope: ReasoningConsistencyScope,
    rounds: usize,
    neural_passes: bool,
    g: GatedDecision,
)
    requires
        gate_ok(p, qn, facts, scope, rounds, neural_passes, g),
        g.verdict == ReasoningVerdict::Allow,
    ensures
        neural_passes,
        g.neural_decides,
        g.trace.symbolic_entailed == Some(true),
        g.trace.symbolic_status == Some(crate::reasoning_types::ReasoningSymbolicStatus::Saturated),
        g.trace.blocking_contradictions@.len() == 0,
{
    let q = fact_parse(qn, "reasoning.query"@, "query"@)->Ok_0;
    let ins = facts_parse(facts, "reasoning.facts"@, "fact entries"@)->Ok_0;
    let fp = p.fingerprint_view();
    let ev1 = choose|ev1: SymbolicEvaluation|
        closure_ok(p, q, ins, SymbolicEvaluationScope::QueryDirected, rounds, ev1) && outputs_ok(p, q, ev1)
            && match gate_fault(
            ev1,
            scope,
            "symbolic query evaluation truncated before saturation; denying regardless of neural score"@,
        ) {
            Some(why) => gate_denial(g, ev1, fp, scope, why),
            None => exists|ev2: SymbolicEvaluation|
                closure_ok(p, q, ins, SymbolicEvaluationScope::Full, rounds, ev2) && outputs_ok(p, q, ev2)
                    && match gate_fault(
                    ev2,
                    scope,
                    "symbolic consistency evaluation truncated before saturation; denying regardless of neural score"@,
                ) {
                    Some(why) => gate_denial(g, ev2, fp, scope, why),
                    None => {
                        &&& g.neural_decides
                        &&& trace_of(g.trace, ev2, fp, scope)
                        &&& if neural_passes {
                            g.verdict == ReasoningVerdict::Allow && g.rationale@
                                == "symbolic gate passed and neural confidence exceeded threshold"@
                        } else {
                            g.verdict == ReasoningVerdict::Review && g.rationale@
                                == "symbolic gate passed but neural confidence below allow threshold"@
                        }
                    },
                },
        };
    assert(gate_fault(ev1, scope, "symbolic query evaluation truncated before saturation; denying regardless of neural score"@) is None);
    let ev2 = choose|ev2: SymbolicEvaluation|
        closure_ok(p, q, ins, SymbolicEvaluationScope::Full, rounds, ev2) && outputs_ok(p, q, ev2)
            && match gate_fault(
            ev2,
            scope,
            "symbolic consistency evaluation truncated before saturation; denying regardless of neural score"@,
        ) {
            Some(why) => gate_denial(g, ev2, fp, scope, why),
            None => {
                &&& g.neural_decides
                &&& trace_of(g.trace, ev2, fp, scope)
                &&& if neural_passes {
                    g.verdict == ReasoningVerdict::Allow && g.rationale@
                        == "symbolic gate passed and neural confidence exceeded threshold"@
                } else {
                    g.verdict == ReasoningVerdict::Review && g.rationale@
                        == "symbolic gate passed but neural confidence below allow threshold"@
                }
            },
        };
    assert(gate_fault(ev2, scope, "symbolic consistency evaluation truncated before saturation; denying regardless of neural score"@) is None);
    assert(blocking_of(ev2, scope).len() == 0);
    assert(crate::symbolic_decision::pairs_view(g.trace.blocking_contradictions@).len() == g.trace.blocking_contradictions@.len());
}

} // verus!
