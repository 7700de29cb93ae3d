//! Laws of symbolic evaluation and decision.

use vstd::prelude::*;
use crate::reasoning_types::{ReasoningConsistencyScope, ReasoningSymbolicStatus, ReasoningVerdict};
use crate::symbolic_decision::{blocking_of, decision_of, symbolic_reasoning_ok, Confidence, ReasoningDecision};
use crate::graph::{lemma_reach_step, reach_within, reachable};
use crate::symbolic_eval::{
    active_rules, ant_lit, closure_lits, closure_ok, closed_under, concluding, cons_lit, entailed_by, fact_nodes,
    fires_in, grew, iterate, lit_node, may_pend, need_graph, seeds_of, step, tally, waiting_after, SymbolicEvaluation,
    SymbolicEvaluationScope,
};
use vstd::set_lib::{lemma_int_range, lemma_len_subset, lemma_map_size, set_int_range};
use crate::symbolic_parse::{fact_parse, LiteralView};
use crate::symbolic_program::{facts_parse, CompiledSymbolicProgram};

verus! {

/// A saturated evaluation derives exactly what follows: a literal is in its
/// closure if and only if the seeds and the active rules entail it.
pub proof fn law_saturated_closure_is_entailment(
    p: CompiledSymbolicProgram,
    q: LiteralView,
    inputs: Seq<LiteralView>,
    scope: SymbolicEvaluationScope,
    max_rounds: usize,
    ev: SymbolicEvaluation,
    l: LiteralView,
)
    requires
        closure_ok(p, q, inputs, scope, max_rounds, ev),
        ev.closure_status is Saturated,
    ensures
        closure_lits(ev).contains(l) <==> entailed_by(p, active_rules(p, q, scope), seeds_of(p, inputs), l),
{
    let cl = closure_lits(ev);
    let act = active_rules(p, q, scope);
    let seeds = seeds_of(p, inputs);
    if cl.contains(l) {
        let k = choose|k: int| 0 <= k < cl.len() && cl[k] == l;
        assert(entailed_by(p, act, seeds, cl[k]));
    }
    if entailed_by(p, act, seeds, l) {
        assert(seeds.subset_of(cl.to_set()));
        assert(closed_under(p, act, cl.to_set()));
        assert(cl.to_set().contains(l));
    }
}

/// A symbolic decision allows only when an evaluation over every rule is
/// saturated, entails the query from the seeds, and finds no contradiction
/// that blocks under the decision's scope.
pub proof fn law_allow_requires_saturated_entailment(
    p: CompiledSymbolicProgram,
    qn: Seq<char>,
    facts: Seq<Seq<char>>,
    scope: ReasoningConsistencyScope,
    rounds: usize,
    d: ReasoningDecision,
)
    requires
        symbolic_reasoning_ok(p, qn, facts, scope, rounds, d),
        d.verdict == ReasoningVerdict::Allow,
    ensures
        exists|q: LiteralView, ins: Seq<LiteralView>, ev: SymbolicEvaluation|
            fact_parse(qn, "reasoning.query"@, "query"@) == Ok::<LiteralView, crate::errors::HelixFault>(q)
                && facts_parse(facts, "reasoning.facts"@, "fact entries"@) == Ok::<
                Seq<LiteralView>,
                crate::errors::HelixFault,
            >(ins) && closure_ok(p, q, ins, SymbolicEvaluationScope::Full, rounds, ev)
                && ev.closure_status is Saturated && entailed_by(
                p,
                active_rules(p, q, SymbolicEvaluationScope::Full),
                seeds_of(p, ins),
                q,
            ) && blocking_of(ev, scope).len() == 0,
{
    let q = fact_parse(qn, "reasoning.query"@, "query"@)->Ok_0;
    let ins = facts_parse(facts, "reasoning.facts"@, "fact entries"@)->Ok_0;
    let fp = p.fingerprint_view();
    let ev1 = choose|ev1: SymbolicEvaluation|
        closure_ok(p, q, ins, SymbolicEvaluationScope::QueryDirected, rounds, ev1) && crate::symbolic_eval::outputs_ok(p, q, ev1) && (
        if ev1.closure_status is Truncated {
            decision_of(
                d,
                qn,
                ev1,
                fp,
                scope,
                Some("symbolic query evaluation truncated before saturation; fail-closed deny"@),
            )
        } else if !ev1.entailed || blocking_of(ev1, scope).len() > 0 {
            decision_of(d, qn, ev1, fp, scope, None)
        } else {
            exists|ev2: SymbolicEvaluation|
                closure_ok(p, q, ins, SymbolicEvaluationScope::Full, rounds, ev2) && crate::symbolic_eval::outputs_ok(p, q, ev2)
                    && decision_of(
                    d,
                    qn,
                    ev2,
                    fp,
                    scope,
                    if ev2.closure_status is Truncated {
                        Some("symbolic consistency evaluation truncated before saturation; fail-closed deny"@)
                    } else {
                        None
                    },
                )
        });
    assert(!(ev1.closure_status is Truncated));
    assert(ev1.entailed && blocking_of(ev1, scope).len() == 0);
    let ev2 = choose|ev2: SymbolicEvaluation|
        closure_ok(p, q, ins, SymbolicEvaluationScope::Full, rounds, ev2) && crate::symbolic_eval::outputs_ok(p, q, ev2)
            && decision_of(
            d,
            qn,
            ev2,
            fp,
            scope,
            if ev2.closure_status is Truncated {
                Some("symbolic consistency evaluation truncated before saturation; fail-closed deny"@)
            } else {
                None
            },
        );
    assert(ev2.closure_status is Saturated);
    assert(closure_lits(ev2).contains(q));
    let k = choose|k: int| 0 <= k < closure_lits(ev2).len() && closure_lits(ev2)[k] == q;
    assert(entailed_by(p, active_rules(p, q, SymbolicEvaluationScope::Full), seeds_of(p, ins), closure_lits(ev2)[k]));
}

/// The fact node of an interned literal is its position.
proof fn lemma_lit_node_of_sym(p: CompiledSymbolicProgram, i: int)
    requires
        p.wf(),
        0 <= i < p.syms().len(),
    ensures
        lit_node(p, p.syms()[i]) == i,
{
    p.lemma_wf();
    assert(p.syms().contains(p.syms()[i]));
    let j = choose|j: int| 0 <= j < p.syms().len() && p.syms()[j] == p.syms()[i];
    assert(j == i);
}

/// A rule concluding fact `f` is among the rule nodes that `f` leads to.
proof fn lemma_concluding_has(p: CompiledSymbolicProgram, f: int, k: int, r: int)
    requires
        0 <= r < k,
        p.rule_cons(r) == f,
    ensures
        exists|i: int| 0 <= i < concluding(p, f, k).len() && #[trigger] concluding(p, f, k)[i] == (fact_nodes(p) + r) as usize,
    decreases k,
{
    let v = (fact_nodes(p) + r) as usize;
    if r < k - 1 {
        lemma_concluding_has(p, f, k - 1, r);
        let i = choose|i: int| 0 <= i < concluding(p, f, k - 1).len() && #[trigger] concluding(p, f, k - 1)[i] == v;
        if p.rule_cons(k - 1) == f {
            assert(concluding(p, f, k) == concluding(p, f, k - 1).push((fact_nodes(p) + k - 1) as usize));
            assert(concluding(p, f, k)[i] == v);
        } else {
            assert(concluding(p, f, k) == concluding(p, f, k - 1));
            assert(concluding(p, f, k)[i] == v);
        }
    } else {
        assert(concluding(p, f, k) == concluding(p, f, k - 1).push(v));
        let c = concluding(p, f, k);
        assert(concluding(p, f, k)[c.len() - 1] == v);
    }
}

/// Restricting evaluation to the rules the query depends on changes nothing
/// for the query: it follows from the seeds by those rules exactly when it
/// follows by all of them.
pub proof fn law_query_directed_entailment_is_complete(p: CompiledSymbolicProgram, q: LiteralView, seeds: Set<LiteralView>)
    requires
        p.wf(),
        fact_nodes(p) + p.rule_count() <= usize::MAX,
    ensures
        entailed_by(p, active_rules(p, q, SymbolicEvaluationScope::QueryDirected), seeds, q) <==> entailed_by(
            p,
            active_rules(p, q, SymbolicEvaluationScope::Full),
            seeds,
            q,
        ),
{
    let qd = active_rules(p, q, SymbolicEvaluationScope::QueryDirected);
    let full = active_rules(p, q, SymbolicEvaluationScope::Full);
    let g = need_graph(p);
    let s = lit_node(p, q);
    p.lemma_wf();
    if entailed_by(p, qd, seeds, q) {
        assert forall|c: Set<LiteralView>| seeds.subset_of(c) && #[trigger] closed_under(p, full, c) implies c.contains(
            q,
        ) by {
            assert forall|r: int| 0 <= r < p.rule_count() && qd[r] && #[trigger] fires_in(p, r, c) implies c.contains(
                cons_lit(p, r),
            ) by {
                assert(full[r]);
            }
            assert(closed_under(p, qd, c));
        }
    }
    if entailed_by(p, full, seeds, q) {
        assert forall|x: Set<LiteralView>| seeds.subset_of(x) && #[trigger] closed_under(p, qd, x) implies x.contains(
            q,
        ) by {
            let y = x.union(Set::new(|l: LiteralView| !reachable(g, s, lit_node(p, l))));
            assert forall|r: int| 0 <= r < p.rule_count() && full[r] && #[trigger] fires_in(p, r, y) implies y.contains(
                cons_lit(p, r),
            ) by {
                let rn = fact_nodes(p) + r;
                if reachable(g, s, rn) {
                    assert(qd[r]);
                    assert(g[rn] == p.rule_ants(r));
                    assert forall|j: int| 0 <= j < p.rule_ants(r).len() implies x.contains(#[trigger] ant_lit(p, r, j)) by {
                        let a = p.rule_ants(r)[j] as int;
                        lemma_reach_step(g, s, rn, j, a);
                        lemma_lit_node_of_sym(p, a);
                        assert(y.contains(ant_lit(p, r, j)));
                    }
                    assert(fires_in(p, r, x));
                } else {
                    let f = p.rule_cons(r) as int;
                    lemma_lit_node_of_sym(p, f);
                    if reachable(g, s, f) {
                        lemma_concluding_has(p, f, p.rule_count() as int, r);
                        let i = choose|i: int| 0 <= i < concluding(p, f, p.rule_count() as int).len() && #[trigger] concluding(
                            p,
                            f,
                            p.rule_count() as int,
                        )[i] == rn as usize;
                        assert(g[f] == concluding(p, f, p.rule_count() as int));
                        lemma_reach_step(g, s, f, i, rn);
                    }
                }
            }
            assert(closed_under(p, full, y));
            assert(y.contains(q));
            assert(reach_within(g, s, 0).contains(s));
            assert(reachable(g, s, lit_node(p, q)));
        }
    }
}

/// A saturated query-directed evaluation decides the query as a full one
/// would: the query is in its closure exactly when it follows from the seeds
/// by all the rules.
pub proof fn law_query_directed_evaluation_decides_as_full(
    p: CompiledSymbolicProgram,
    q: LiteralView,
    inputs: Seq<LiteralView>,
    max_rounds: usize,
    ev: SymbolicEvaluation,
)
    requires
        p.wf(),
        fact_nodes(p) + p.rule_count() <= usize::MAX,
        closure_ok(p, q, inputs, SymbolicEvaluationScope::QueryDirected, max_rounds, ev),
        ev.closure_status is Saturated,
    ensures
        closure_lits(ev).contains(q) <==> entailed_by(
            p,
            active_rules(p, q, SymbolicEvaluationScope::Full),
            seeds_of(p, inputs),
            q,
        ),
{
    law_saturated_closure_is_entailment(p, q, inputs, SymbolicEvaluationScope::QueryDirected, max_rounds, ev, q);
    law_query_directed_entailment_is_complete(p, q, seeds_of(p, inputs));
}

/// The rounds only add facts.
proof fn lemma_iterate_grows(p: CompiledSymbolicProgram, act: Seq<bool>, s: Set<LiteralView>, k: nat, j: nat)
    requires
        k <= j,
    ensures
        iterate(p, act, s, k).subset_of(iterate(p, act, s, j)),
    decreases j,
{
    if k < j {
        lemma_iterate_grows(p, act, s, k, (j - 1) as nat);
        assert(iterate(p, act, s, (j - 1) as nat).subset_of(step(p, act, iterate(p, act, s, (j - 1) as nat))));
    }
}

/// A conclusion that round `j` adds.
spec fn added_by(p: CompiledSymbolicProgram, act: Seq<bool>, s: Set<LiteralView>, j: int) -> int {
    choose|r: int|
        0 <= r < p.rule_count() && iterate(p, act, s, j as nat).contains(cons_lit(p, r)) && !iterate(
            p,
            act,
            s,
            (j - 1) as nat,
        ).contains(cons_lit(p, r))
}

proof fn lemma_added_by(p: CompiledSymbolicProgram, act: Seq<bool>, s: Set<LiteralView>, j: int)
    requires
        j >= 1,
        grew(p, act, s, j),
    ensures
        ({
            let r = added_by(p, act, s, j);
            &&& 0 <= r < p.rule_count()
            &&& iterate(p, act, s, j as nat).contains(cons_lit(p, r))
            &&& !iterate(p, act, s, (j - 1) as nat).contains(cons_lit(p, r))
        }),
{
    let a = iterate(p, act, s, (j - 1) as nat);
    let b = iterate(p, act, s, j as nat);
    assert(b == step(p, act, a));
    assert(a.subset_of(b));
    if forall|l: LiteralView| b.contains(l) ==> a.contains(l) {
        assert(a =~= b);
    }
    let l = choose|l: LiteralView| b.contains(l) && !a.contains(l);
    let r = choose|r: int| 0 <= r < p.rule_count() && act[r] && fires_in(p, r, a) && #[trigger] cons_lit(p, r) == l;
    assert(0 <= r < p.rule_count() && b.contains(cons_lit(p, r)) && !a.contains(cons_lit(p, r)));
}

proof fn lemma_tally_some(n: int, pred: spec_fn(int) -> bool)
    requires
        tally(n, pred) > 0,
    ensures
        exists|i: int| 0 <= i < n && #[trigger] pred(i),
    decreases n,
{
    if n > 0 && !pred(n - 1) {
        lemma_tally_some(n - 1, pred);
    }
}

/// With more rounds than rules, an evaluation reaches its fixed point: every
/// round that adds a fact adds the conclusion of a rule no earlier round
/// concluded, and a rule left waiting needs one more such conclusion.
pub proof fn law_more_rounds_than_rules_saturate(
    p: CompiledSymbolicProgram,
    q: LiteralView,
    inputs: Seq<LiteralView>,
    scope: SymbolicEvaluationScope,
    max_rounds: usize,
    ev: SymbolicEvaluation,
)
    requires
        closure_ok(p, q, inputs, scope, max_rounds, ev),
        max_rounds > p.rule_count(),
    ensures
        ev.closure_status is Saturated,
{
    let act = active_rules(p, q, scope);
    let seeds = seeds_of(p, inputs);
    let big_r = ev.rounds_executed as int;
    let rc = p.rule_count() as int;
    if ev.pending_rule_count > 0 {
        assert(big_r == max_rounds);
        let kr: nat = big_r as nat;
        lemma_tally_some(rc, |r: int| may_pend(p, act, seeds, kr, r));
        let w = choose|r: int| 0 <= r < rc && #[trigger] may_pend(p, act, seeds, kr, r);
        assert(waiting_after(p, act, iterate(p, act, seeds, (big_r - 1) as nat), iterate(p, act, seeds, big_r as nat), w));
        let last = iterate(p, act, seeds, (big_r - 1) as nat);
        assert(!last.contains(cons_lit(p, w)));
        let f = |j: int| added_by(p, act, seeds, j);
        let xs = set_int_range(1, big_r);
        lemma_int_range(1, big_r);
        assert forall|j: int| 1 <= j < big_r implies {
            &&& 0 <= #[trigger] f(j) < rc
            &&& iterate(p, act, seeds, j as nat).contains(cons_lit(p, f(j)))
            &&& !iterate(p, act, seeds, (j - 1) as nat).contains(cons_lit(p, f(j)))
            &&& last.contains(cons_lit(p, f(j)))
        } by {
            assert(grew(p, act, seeds, j));
            lemma_added_by(p, act, seeds, j);
            lemma_iterate_grows(p, act, seeds, j as nat, (big_r - 1) as nat);
        }
        assert forall|j1: int, j2: int| xs.contains(j1) && xs.contains(j2) && #[trigger] f(j1) == #[trigger] f(j2) implies j1 == j2 by {
            if j1 < j2 {
                lemma_iterate_grows(p, act, seeds, j1 as nat, (j2 - 1) as nat);
                assert(iterate(p, act, seeds, (j2 - 1) as nat).contains(cons_lit(p, f(j1))));
            } else if j2 < j1 {
                lemma_iterate_grows(p, act, seeds, j2 as nat, (j1 - 1) as nat);
                assert(iterate(p, act, seeds, (j1 - 1) as nat).contains(cons_lit(p, f(j2))));
            }
        }
        let ys = xs.map(f);
        lemma_map_size(xs, ys, f);
        let room = set_int_range(0, rc).remove(w);
        lemma_int_range(0, rc);
        assert forall|r: int| ys.contains(r) implies room.contains(r) by {
            let j = choose|j: int| xs.contains(j) && f(j) == r;
            assert(last.contains(cons_lit(p, f(j))));
        }
        lemma_len_subset(ys, room);
        assert(set_int_range(0, rc).contains(w));
        assert(room.len() == rc - 1);
        assert(false);
    }
}

/// With more rounds than rules, an evaluation entails the query exactly when
/// the seeds and the active rules entail it.
pub proof fn law_more_rounds_than_rules_decide_entailment(
    p: CompiledSymbolicProgram,
    q: LiteralView,
    inputs: Seq<LiteralView>,
    scope: SymbolicEvaluationScope,
    max_rounds: usize,
    ev: SymbolicEvaluation,
)
    requires
        closure_ok(p, q, inputs, scope, max_rounds, ev),
        max_rounds > p.rule_count(),
    ensures
        ev.entailed <==> entailed_by(p, active_rules(p, q, scope), seeds_of(p, inputs), q),
{
    law_more_rounds_than_rules_saturate(p, q, inputs, scope, max_rounds, ev);
    law_saturated_closure_is_entailment(p, q, inputs, scope, max_rounds, ev, q);
}

/// A symbolic decision never asks for review, is held with confidence zero or
/// one, and allows exactly when its trace shows the query entailed, the
/// closure saturated and no blocking contradiction; the trace names the
/// program's fingerprint and the consistency scope used.
pub proof fn law_symbolic_verdict_follows_its_trace(
    d: ReasoningDecision,
    query: Seq<char>,
    ev: SymbolicEvaluation,
    fingerprint: Seq<char>,
    scope: ReasoningConsistencyScope,
    rationale: Option<Seq<char>>,
)
    requires
        decision_of(d, query, ev, fingerprint, scope, rationale),
    ensures
        d.backend is KrrSymbolic,
        d.verdict != ReasoningVerdict::Review,
        d.confidence == (Confidence { numerator: 0, denominator: 1 }) || d.confidence == (Confidence {
            numerator: 1,
            denominator: 1,
        }),
        d.verdict == ReasoningVerdict::Allow <==> (d.trace.symbolic_entailed == Some(true)
            && d.trace.symbolic_status == Some(ReasoningSymbolicStatus::Saturated)
            && d.trace.blocking_contradictions@.len() == 0),
        d.trace.program_fingerprint matches Some(f) && f@ == fingerprint,
        d.trace.consistency_scope == Some(scope),
{
    assert(d.trace.blocking_contradictions@.len() == blocking_of(ev, scope).len());
}

} // verus!
