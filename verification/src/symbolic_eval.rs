//! Forward chaining over a compiled symbolic program, by rounds, with the
//! closure it reaches, the support of each fact and the contradictions found.

use vstd::prelude::*;
use crate::errors::{HelixError, HelixFault};
use crate::graph::{reachable, reachable_set};
use crate::symbolic_parse::{fact_parse, LiteralView, SymbolicLiteral, parse_fact};
use crate::reasoning_types::{ReasoningContradiction, ReasoningSupportKind, ReasoningSupportNode, SupportNodeView};
use crate::symbolic_program::{
    copy_literal, facts_parse, intern, lits_view, parse_fact_list, strs, CompiledSymbolicProgram,
};

verus! {

/// Which rules take part in an evaluation.
#[derive(Debug, Clone, Copy, PartialEq, Eq, Structural)]
pub enum SymbolicEvaluationScope {
    /// Every rule.
    Full,
    /// Only the rules the query can depend on.
    QueryDirected,
}

/// Whether the closure reached its fixed point.
#[derive(Debug, Clone, Copy, PartialEq, Eq, Structural)]
pub enum SymbolicClosureStatus {
    /// No rule was left to fire.
    Saturated,
    /// The round bound was reached with rules still ready.
    Truncated,
}

/// Number of fact nodes of the dependency graph: one per interned literal, and
/// one more for a query the program does not mention.
pub open spec fn fact_nodes(p: CompiledSymbolicProgram) -> int {
    p.syms().len() + 1int
}

/// The rule nodes, among the first `k` rules, of the rules concluding fact `f`.
pub open spec fn concluding(p: CompiledSymbolicProgram, f: int, k: int) -> Seq<usize>
    decreases k,
{
    if k <= 0 {
        Seq::empty()
    } else if p.rule_cons(k - 1) == f {
        concluding(p, f, k - 1).push((fact_nodes(p) + k - 1) as usize)
    } else {
        concluding(p, f, k - 1)
    }
}

/// The dependency graph of a program: a fact leads to the rules concluding it,
/// a rule to its antecedents.
pub open spec fn need_graph(p: CompiledSymbolicProgram) -> Seq<Seq<usize>> {
    Seq::new(
        (fact_nodes(p) + p.rule_count()) as nat,
        |n: int|
            if n < fact_nodes(p) {
                concluding(p, n, p.rule_count() as int)
            } else {
                p.rule_ants(n - fact_nodes(p))
            },
    )
}

/// The fact node of a literal: its interned position, or the extra node.
pub open spec fn lit_node(p: CompiledSymbolicProgram, q: LiteralView) -> int {
    if p.syms().contains(q) {
        choose|i: int| 0 <= i < p.syms().len() && p.syms()[i] == q
    } else {
        p.syms().len() as int
    }
}

/// The rules taking part: all of them, or those reachable from the query in
/// the dependency graph.
pub open spec fn active_rules(p: CompiledSymbolicProgram, q: LiteralView, scope: SymbolicEvaluationScope) -> Seq<bool> {
    Seq::new(
        p.rule_count(),
        |r: int| scope is Full || reachable(need_graph(p), lit_node(p, q), fact_nodes(p) + r),
    )
}

/// The literal that rule `r` concludes.
pub open spec fn cons_lit(p: CompiledSymbolicProgram, r: int) -> LiteralView {
    p.syms()[p.rule_cons(r) as int]
}

/// The `j`-th antecedent literal of rule `r`.
pub open spec fn ant_lit(p: CompiledSymbolicProgram, r: int, j: int) -> LiteralView {
    p.syms()[p.rule_ants(r)[j] as int]
}

/// Every antecedent of rule `r` belongs to `c`.
pub open spec fn fires_in(p: CompiledSymbolicProgram, r: int, c: Set<LiteralView>) -> bool {
    forall|j: int| 0 <= j < p.rule_ants(r).len() ==> c.contains(#[trigger] ant_lit(p, r, j))
}

/// `c` holds the conclusion of every active rule whose antecedents it holds.
pub open spec fn closed_under(p: CompiledSymbolicProgram, act: Seq<bool>, c: Set<LiteralView>) -> bool {
    forall|r: int| 0 <= r < p.rule_count() && act[r] && #[trigger] fires_in(p, r, c) ==> c.contains(cons_lit(p, r))
}

/// `l` follows from `seeds` by the active rules: every set that holds the seeds
/// and is closed under the active rules holds `l`.
pub open spec fn entailed_by(p: CompiledSymbolicProgram, act: Seq<bool>, seeds: Set<LiteralView>, l: LiteralView) -> bool {
    forall|c: Set<LiteralView>| seeds.subset_of(c) && #[trigger] closed_under(p, act, c) ==> c.contains(l)
}

/// The base facts of the program and the given input facts.
pub open spec fn seeds_of(p: CompiledSymbolicProgram, inputs: Seq<LiteralView>) -> Set<LiteralView> {
    Set::new(
        |l: LiteralView|
            (exists|i: int| 0 <= i < p.syms().len() && p.is_base(i) && p.syms()[i] == l) || inputs.contains(l),
    )
}

/// The table `syms` extends the program's literals and holds each literal once.
pub open spec fn ext_ok(p: CompiledSymbolicProgram, syms: Seq<LiteralView>) -> bool {
    &&& syms.no_duplicates()
    &&& p.syms().len() <= syms.len()
    &&& forall|i: int| 0 <= i < p.syms().len() ==> syms[i] == p.syms()[i]
}

/// The fact at position `k` of the derivation order is a seed, or the
/// conclusion of an active rule whose antecedents all come earlier.
pub open spec fn justified(
    p: CompiledSymbolicProgram,
    act: Seq<bool>,
    seed: Seq<bool>,
    via: Seq<usize>,
    order: Seq<usize>,
    k: int,
) -> bool {
    let f = order[k] as int;
    seed[f] || {
        &&& via[f] < p.rule_count()
        &&& act[via[f] as int]
        &&& p.rule_cons(via[f] as int) == f
        &&& forall|j: int|
            0 <= j < p.rule_ants(via[f] as int).len() ==> order.subrange(0, k).contains(
                #[trigger] p.rule_ants(via[f] as int)[j],
            )
    }
}

/// The evaluation state: which literals are in the closure, which are seeds,
/// which rule derived each other one, and the order they entered in.
pub open spec fn state_ok(
    p: CompiledSymbolicProgram,
    act: Seq<bool>,
    seeds: Set<LiteralView>,
    syms: Seq<LiteralView>,
    in_c: Seq<bool>,
    seed: Seq<bool>,
    via: Seq<usize>,
    order: Seq<usize>,
) -> bool {
    &&& ext_ok(p, syms)
    &&& in_c.len() == syms.len()
    &&& syms.len() <= usize::MAX
    &&& seed.len() == syms.len()
    &&& via.len() == syms.len()
    &&& act.len() == p.rule_count()
    &&& order.no_duplicates()
    &&& forall|k: int| 0 <= k < order.len() ==> (#[trigger] order[k]) < syms.len()
    &&& forall|i: int| 0 <= i < syms.len() ==> (#[trigger] in_c[i] <==> order.contains(i as usize))
    &&& forall|i: int| 0 <= i < syms.len() && #[trigger] seed[i] ==> in_c[i] && seeds.contains(syms[i])
    &&& forall|k: int| 0 <= k < order.len() ==> #[trigger] justified(p, act, seed, via, order, k)
}

/// Every fact of the derivation order belongs to every closed set holding the seeds.
proof fn lemma_sound_prefix(
    p: CompiledSymbolicProgram,
    act: Seq<bool>,
    seeds: Set<LiteralView>,
    syms: Seq<LiteralView>,
    in_c: Seq<bool>,
    seed: Seq<bool>,
    via: Seq<usize>,
    order: Seq<usize>,
    c: Set<LiteralView>,
    m: int,
)
    requires
        p.wf(),
        state_ok(p, act, seeds, syms, in_c, seed, via, order),
        seeds.subset_of(c),
        closed_under(p, act, c),
        0 <= m <= order.len(),
    ensures
        forall|k: int| 0 <= k < m ==> c.contains(syms[#[trigger] order[k] as int]),
    decreases m,
{
    if m > 0 {
        lemma_sound_prefix(p, act, seeds, syms, in_c, seed, via, order, c, m - 1);
        let k = m - 1;
        let f = order[k] as int;
        assert(justified(p, act, seed, via, order, k));
        if !seed[f] {
            let r = via[f] as int;
            p.lemma_wf();
            assert forall|j: int| 0 <= j < p.rule_ants(r).len() implies c.contains(#[trigger] ant_lit(p, r, j)) by {
                let a = p.rule_ants(r)[j];
                assert(order.subrange(0, k).contains(a));
                let w = choose|w: int| 0 <= w < k && order.subrange(0, k)[w] == a;
                assert(order[w] == a);
                assert(c.contains(syms[order[w] as int]));
                assert(syms[a as int] == p.syms()[a as int]);
            }
            assert(fires_in(p, r, c));
            assert(c.contains(cons_lit(p, r)));
            assert(syms[f] == p.syms()[f]);
        } else {
            assert(in_c[f]);
        }
    }
}

/// Whether every listed fact is in the closure.
fn all_in(ants: &Vec<usize>, in_c: &Vec<bool>) -> (r: bool)
    requires
        forall|j: int| 0 <= j < ants@.len() ==> ants@[j] < in_c@.len(),
    ensures
        r == (forall|j: int| 0 <= j < ants@.len() ==> in_c@[#[trigger] ants@[j] as int]),
{
    let mut j: usize = 0;
    while j < ants.len()
        invariant
            j <= ants@.len(),
            forall|q: int| 0 <= q < ants@.len() ==> ants@[q] < in_c@.len(),
            forall|q: int| 0 <= q < j ==> in_c@[#[trigger] ants@[q] as int],
        decreases ants@.len() - j,
    {
        if !in_c[ants[j]] {
            return false;
        }
        j = j + 1;
    }
    true
}

fn has_id(v: &Vec<usize>, x: usize) -> (r: bool)
    ensures
        r == v@.contains(x),
{
    let mut i: usize = 0;
    while i < v.len()
        invariant
            i <= v@.len(),
            forall|k: int| 0 <= k < i ==> v@[k] != x,
        decreases v@.len() - i,
    {
        if v[i] == x {
            assert(v@[i as int] == x);
            return true;
        }
        i = i + 1;
    }
    false
}

/// Rule `r` is active, all its antecedents are in the closure and its
/// conclusion is not.
pub open spec fn ready(p: CompiledSymbolicProgram, act: Seq<bool>, in_c: Seq<bool>, r: int) -> bool {
    &&& act[r]
    &&& (forall|j: int| 0 <= j < p.rule_ants(r).len() ==> in_c[#[trigger] p.rule_ants(r)[j] as int])
    &&& !in_c[p.rule_cons(r) as int]
}

/// Rule `r` is active and all its antecedents are set in `f`.
pub open spec fn enabled(p: CompiledSymbolicProgram, act: Seq<bool>, f: Seq<bool>, r: int) -> bool {
    &&& act[r]
    &&& forall|j: int| 0 <= j < p.rule_ants(r).len() ==> f[#[trigger] p.rule_ants(r)[j] as int]
}

/// One round of forward chaining: every active rule whose antecedents all hold
/// in `s` adds its conclusion.
pub open spec fn step(p: CompiledSymbolicProgram, act: Seq<bool>, s: Set<LiteralView>) -> Set<LiteralView> {
    s.union(
        Set::new(
            |l: LiteralView|
                exists|r: int| 0 <= r < p.rule_count() && act[r] && fires_in(p, r, s) && #[trigger] cons_lit(p, r) == l,
        ),
    )
}

/// The facts reached from `s` after `k` rounds.
pub open spec fn iterate(p: CompiledSymbolicProgram, act: Seq<bool>, s: Set<LiteralView>, k: nat) -> Set<LiteralView>
    decreases k,
{
    if k == 0 {
        s
    } else {
        step(p, act, iterate(p, act, s, (k - 1) as nat))
    }
}

/// Round `j` from `s` added a fact.
pub open spec fn grew(p: CompiledSymbolicProgram, act: Seq<bool>, s: Set<LiteralView>, j: int) -> bool {
    iterate(p, act, s, j as nat) != iterate(p, act, s, (j - 1) as nat)
}

/// The literals at the set positions of `f`.
pub open spec fn lits_in(syms: Seq<LiteralView>, f: Seq<bool>) -> Set<LiteralView> {
    Set::new(|l: LiteralView| exists|i: int| 0 <= i < syms.len() && f[i] && syms[i] == l)
}

/// Rule `r` is active, its antecedents hold in `s` and its conclusion does not.
pub open spec fn ready_in(p: CompiledSymbolicProgram, act: Seq<bool>, s: Set<LiteralView>, r: int) -> bool {
    &&& act[r]
    &&& fires_in(p, r, s)
    &&& !s.contains(cons_lit(p, r))
}

/// Rule `r` may be left waiting by a round that went from `prev` to `cur`: it
/// is active, its antecedents hold in `cur`, one of them is new, and its
/// conclusion was not in `prev`.
pub open spec fn waiting_after(
    p: CompiledSymbolicProgram,
    act: Seq<bool>,
    prev: Set<LiteralView>,
    cur: Set<LiteralView>,
    r: int,
) -> bool {
    &&& act[r]
    &&& fires_in(p, r, cur)
    &&& !prev.contains(cons_lit(p, r))
    &&& exists|j: int| 0 <= j < p.rule_ants(r).len() && !prev.contains(#[trigger] ant_lit(p, r, j))
}

/// The rules that may be left pending after `k` rounds from `seeds`: with no
/// round run, the ready ones; else those the last round may leave waiting.
pub open spec fn may_pend(p: CompiledSymbolicProgram, act: Seq<bool>, seeds: Set<LiteralView>, k: nat, r: int) -> bool {
    if k == 0 {
        ready_in(p, act, seeds, r)
    } else {
        waiting_after(p, act, iterate(p, act, seeds, (k - 1) as nat), iterate(p, act, seeds, k), r)
    }
}

/// Number of `i` in `0..n` with `pred(i)`.
pub open spec fn tally(n: int, pred: spec_fn(int) -> bool) -> nat
    decreases n,
{
    if n <= 0 {
        0
    } else {
        tally(n - 1, pred) + if pred(n - 1) { 1nat } else { 0nat }
    }
}

proof fn lemma_tally_mono(n: int, a: spec_fn(int) -> bool, b: spec_fn(int) -> bool)
    requires
        forall|i: int| 0 <= i < n && #[trigger] a(i) ==> b(i),
    ensures
        tally(n, a) <= tally(n, b),
    decreases n,
{
    if n > 0 {
        lemma_tally_mono(n - 1, a, b);
    }
}

/// Flags over the literal table and the set of literals they mark agree.
proof fn lemma_lits_in(p: CompiledSymbolicProgram, syms: Seq<LiteralView>, f: Seq<bool>)
    requires
        p.wf(),
        ext_ok(p, syms),
        f.len() == syms.len(),
    ensures
        forall|i: int| 0 <= i < syms.len() ==> (lits_in(syms, f).contains(#[trigger] syms[i]) <==> f[i]),
        forall|r: int, j: int|
            0 <= r < p.rule_count() && 0 <= j < p.rule_ants(r).len() ==> (lits_in(syms, f).contains(
                #[trigger] ant_lit(p, r, j),
            ) <==> f[p.rule_ants(r)[j] as int]),
        forall|r: int|
            0 <= r < p.rule_count() ==> (lits_in(syms, f).contains(#[trigger] cons_lit(p, r)) <==> f[p.rule_cons(
                r,
            ) as int]),
        forall|r: int|
            0 <= r < p.rule_count() ==> (#[trigger] fires_in(p, r, lits_in(syms, f)) <==> forall|j: int|
                0 <= j < p.rule_ants(r).len() ==> f[#[trigger] p.rule_ants(r)[j] as int]),
{
    p.lemma_wf();
    let s = lits_in(syms, f);
    assert forall|i: int| 0 <= i < syms.len() implies (s.contains(#[trigger] syms[i]) <==> f[i]) by {
        if s.contains(syms[i]) {
            let w = choose|w: int| 0 <= w < syms.len() && f[w] && syms[w] == syms[i];
            assert(w == i);
        }
    }
    assert forall|r: int, j: int| 0 <= r < p.rule_count() && 0 <= j < p.rule_ants(r).len() implies (s.contains(
        #[trigger] ant_lit(p, r, j),
    ) <==> f[p.rule_ants(r)[j] as int]) by {
        let a = p.rule_ants(r)[j] as int;
        assert(ant_lit(p, r, j) == syms[a]);
    }
    assert forall|r: int| 0 <= r < p.rule_count() implies (s.contains(#[trigger] cons_lit(p, r)) <==> f[p.rule_cons(
        r,
    ) as int]) by {
        assert(cons_lit(p, r) == syms[p.rule_cons(r) as int]);
    }
    assert forall|r: int| 0 <= r < p.rule_count() implies (#[trigger] fires_in(p, r, s) <==> forall|j: int|
        0 <= j < p.rule_ants(r).len() ==> f[#[trigger] p.rule_ants(r)[j] as int]) by {
        if fires_in(p, r, s) {
            assert forall|j: int| 0 <= j < p.rule_ants(r).len() implies f[#[trigger] p.rule_ants(r)[j] as int] by {
                assert(s.contains(ant_lit(p, r, j)));
            }
        }
        if forall|j: int| 0 <= j < p.rule_ants(r).len() ==> f[#[trigger] p.rule_ants(r)[j] as int] {
            assert forall|j: int| 0 <= j < p.rule_ants(r).len() implies s.contains(#[trigger] ant_lit(p, r, j)) by {
                assert(f[p.rule_ants(r)[j] as int]);
            }
        }
    }
}

/// A round that adds exactly the conclusions of the rules enabled at its
/// start takes the marked literals one step.
proof fn lemma_round(p: CompiledSymbolicProgram, act: Seq<bool>, syms: Seq<LiteralView>, s0: Seq<bool>, f: Seq<bool>)
    requires
        p.wf(),
        ext_ok(p, syms),
        s0.len() == syms.len(),
        f.len() == syms.len(),
        act.len() == p.rule_count(),
        forall|i: int| 0 <= i < syms.len() && s0[i] ==> f[i],
        forall|r: int| 0 <= r < p.rule_count() && #[trigger] enabled(p, act, s0, r) ==> f[p.rule_cons(r) as int],
        forall|i: int|
            0 <= i < syms.len() && #[trigger] f[i] ==> s0[i] || exists|r: int|
                0 <= r < p.rule_count() && enabled(p, act, s0, r) && p.rule_cons(r) == i,
    ensures
        lits_in(syms, f) == step(p, act, lits_in(syms, s0)),
{
    lemma_lits_in(p, syms, f);
    lemma_lits_in(p, syms, s0);
    p.lemma_wf();
    let a = lits_in(syms, s0);
    let b = lits_in(syms, f);
    let c = step(p, act, a);
    assert forall|l: LiteralView| b.contains(l) implies c.contains(l) by {
        let i = choose|i: int| 0 <= i < syms.len() && f[i] && syms[i] == l;
        if s0[i] {
            assert(a.contains(syms[i]));
        } else {
            let r = choose|r: int| 0 <= r < p.rule_count() && enabled(p, act, s0, r) && p.rule_cons(r) == i;
            assert(fires_in(p, r, a));
            assert(cons_lit(p, r) == l);
        }
    }
    assert forall|l: LiteralView| c.contains(l) implies b.contains(l) by {
        if a.contains(l) {
            let i = choose|i: int| 0 <= i < syms.len() && s0[i] && syms[i] == l;
            assert(f[i]);
            assert(b.contains(syms[i]));
        } else {
            let r = choose|r: int| 0 <= r < p.rule_count() && act[r] && fires_in(p, r, a) && #[trigger] cons_lit(p, r) == l;
            assert(enabled(p, act, s0, r));
            assert(b.contains(cons_lit(p, r)));
        }
    }
    assert(b =~= c);
}

/// A set flag that was clear changes the marked literals.
proof fn lemma_lits_grow(p: CompiledSymbolicProgram, syms: Seq<LiteralView>, s0: Seq<bool>, f: Seq<bool>, i: int)
    requires
        p.wf(),
        ext_ok(p, syms),
        s0.len() == syms.len(),
        f.len() == syms.len(),
        0 <= i < syms.len(),
        f[i],
        !s0[i],
    ensures
        lits_in(syms, f) != lits_in(syms, s0),
{
    lemma_lits_in(p, syms, f);
    lemma_lits_in(p, syms, s0);
    assert(lits_in(syms, f).contains(syms[i]));
}

/// The facts after the first `i` rules of a round that started from `s`:
/// `s` and the conclusions of the active rules among `0..i` whose
/// antecedents hold in `s`.
pub open spec fn upto_lits(p: CompiledSymbolicProgram, act: Seq<bool>, s: Set<LiteralView>, i: int) -> Set<LiteralView> {
    s.union(
        Set::new(
            |l: LiteralView|
                exists|r: int| 0 <= r < i && act[r] && fires_in(p, r, s) && #[trigger] cons_lit(p, r) == l,
        ),
    )
}

/// In a round that started from `s`, rule `i` adds its conclusion: it is
/// active, its antecedents hold in `s`, and no earlier rule of the round
/// added that conclusion.
pub open spec fn fired_lits(p: CompiledSymbolicProgram, act: Seq<bool>, s: Set<LiteralView>, i: int) -> bool {
    &&& act[i]
    &&& fires_in(p, i, s)
    &&& !upto_lits(p, act, s, i).contains(cons_lit(p, i))
}

/// Rule `r` is left waiting by a round that started from `s`: right after
/// some rule of the round added one of `r`'s antecedents, `r` was ready.
pub open spec fn left_waiting(p: CompiledSymbolicProgram, act: Seq<bool>, s: Set<LiteralView>, r: int) -> bool {
    exists|i: int|
        0 <= i < p.rule_count() && #[trigger] fired_lits(p, act, s, i) && (exists|j: int|
            0 <= j < p.rule_ants(r).len() && ant_lit(p, r, j) == cons_lit(p, i)) && ready_in(
            p,
            act,
            upto_lits(p, act, s, i + 1),
            r,
        )
}

/// The rules pending after `k` rounds from `seeds`: with no round run, the
/// ready ones; else those the last round left waiting.
pub open spec fn pending_after(p: CompiledSymbolicProgram, act: Seq<bool>, seeds: Set<LiteralView>, k: nat, r: int) -> bool {
    if k == 0 {
        ready_in(p, act, seeds, r)
    } else {
        left_waiting(p, act, iterate(p, act, seeds, (k - 1) as nat), r)
    }
}

/// The closure flags of a round that started at `s0`, once rules `0..i` were tried.
pub open spec fn upto(p: CompiledSymbolicProgram, act: Seq<bool>, s0: Seq<bool>, i: int) -> Seq<bool> {
    Seq::new(
        s0.len(),
        |k: int| s0[k] || exists|r: int| 0 <= r < i && #[trigger] enabled(p, act, s0, r) && p.rule_cons(r) == k,
    )
}

/// Rule `i` adds its conclusion in a round that started at `s0`.
pub open spec fn fired(p: CompiledSymbolicProgram, act: Seq<bool>, s0: Seq<bool>, i: int) -> bool {
    enabled(p, act, s0, i) && !upto(p, act, s0, i)[p.rule_cons(i) as int]
}

/// Rule `r` was marked to wait by one of the first `n` rules of a round that
/// started at `s0`.
pub open spec fn marked(p: CompiledSymbolicProgram, act: Seq<bool>, s0: Seq<bool>, r: int, n: int) -> bool {
    exists|i: int|
        0 <= i < n && #[trigger] fired(p, act, s0, i) && p.rule_ants(r).contains(p.rule_cons(i)) && ready(
            p,
            act,
            upto(p, act, s0, i + 1),
            r,
        )
}

proof fn lemma_tally_eq(n: int, a: spec_fn(int) -> bool, b: spec_fn(int) -> bool)
    requires
        forall|i: int| 0 <= i < n ==> #[trigger] a(i) == b(i),
    ensures
        tally(n, a) == tally(n, b),
    decreases n,
{
    if n > 0 {
        lemma_tally_eq(n - 1, a, b);
        assert(a(n - 1) == b(n - 1));
    }
}

/// The flags of a round, read as literals.
proof fn lemma_upto_lits(p: CompiledSymbolicProgram, act: Seq<bool>, syms: Seq<LiteralView>, s0: Seq<bool>, i: int)
    requires
        p.wf(),
        ext_ok(p, syms),
        s0.len() == syms.len(),
        act.len() == p.rule_count(),
        0 <= i <= p.rule_count(),
    ensures
        lits_in(syms, upto(p, act, s0, i)) == upto_lits(p, act, lits_in(syms, s0), i),
{
    lemma_lits_in(p, syms, s0);
    p.lemma_wf();
    let u = upto(p, act, s0, i);
    let a = lits_in(syms, u);
    let b = upto_lits(p, act, lits_in(syms, s0), i);
    assert forall|l: LiteralView| a.contains(l) implies b.contains(l) by {
        let k = choose|k: int| 0 <= k < syms.len() && u[k] && syms[k] == l;
        if s0[k] {
            assert(lits_in(syms, s0).contains(syms[k]));
        } else {
            let r = choose|r: int| 0 <= r < i && #[trigger] enabled(p, act, s0, r) && p.rule_cons(r) == k;
            assert(0 <= r < p.rule_count());
            assert(fires_in(p, r, lits_in(syms, s0)));
            assert(cons_lit(p, r) == l);
        }
    }
    assert forall|l: LiteralView| b.contains(l) implies a.contains(l) by {
        if lits_in(syms, s0).contains(l) {
            let k = choose|k: int| 0 <= k < syms.len() && s0[k] && syms[k] == l;
            assert(u[k]);
        } else {
            let r = choose|r: int| 0 <= r < i && act[r] && fires_in(p, r, lits_in(syms, s0)) && #[trigger] cons_lit(p, r) == l;
            assert(0 <= r < p.rule_count());
            assert(enabled(p, act, s0, r));
            let k = p.rule_cons(r) as int;
            assert(u[k]);
            assert(syms[k] == l);
        }
    }
    assert(a =~= b);
}

/// Ready flags and ready literals agree.
proof fn lemma_ready_lits(p: CompiledSymbolicProgram, act: Seq<bool>, syms: Seq<LiteralView>, f: Seq<bool>, r: int)
    requires
        p.wf(),
        ext_ok(p, syms),
        f.len() == syms.len(),
        act.len() == p.rule_count(),
        0 <= r < p.rule_count(),
    ensures
        ready(p, act, f, r) == ready_in(p, act, lits_in(syms, f), r),
        enabled(p, act, f, r) == (act[r] && fires_in(p, r, lits_in(syms, f))),
{
    lemma_lits_in(p, syms, f);
    assert(fires_in(p, r, lits_in(syms, f)) == forall|j: int|
        0 <= j < p.rule_ants(r).len() ==> f[#[trigger] p.rule_ants(r)[j] as int]);
}

/// A rule marked to wait by a round is one the round left waiting, and back.
proof fn lemma_marked_lits(p: CompiledSymbolicProgram, act: Seq<bool>, syms: Seq<LiteralView>, s0: Seq<bool>, r: int)
    requires
        p.wf(),
        ext_ok(p, syms),
        s0.len() == syms.len(),
        act.len() == p.rule_count(),
        0 <= r < p.rule_count(),
    ensures
        marked(p, act, s0, r, p.rule_count() as int) == left_waiting(p, act, lits_in(syms, s0), r),
{
    p.lemma_wf();
    let s = lits_in(syms, s0);
    assert forall|i: int| 0 <= i < p.rule_count() implies {
        &&& #[trigger] fired(p, act, s0, i) == fired_lits(p, act, s, i)
        &&& ready(p, act, upto(p, act, s0, i + 1), r) == ready_in(p, act, upto_lits(p, act, s, i + 1), r)
        &&& p.rule_ants(r).contains(p.rule_cons(i)) == (exists|j: int|
            0 <= j < p.rule_ants(r).len() && ant_lit(p, r, j) == cons_lit(p, i))
    } by {
        lemma_ready_lits(p, act, syms, s0, i);
        lemma_upto_lits(p, act, syms, s0, i);
        lemma_upto_lits(p, act, syms, s0, i + 1);
        lemma_lits_in(p, syms, upto(p, act, s0, i));
        lemma_ready_lits(p, act, syms, upto(p, act, s0, i + 1), r);
        if p.rule_ants(r).contains(p.rule_cons(i)) {
            let j = choose|j: int| 0 <= j < p.rule_ants(r).len() && p.rule_ants(r)[j] == p.rule_cons(i);
            assert(ant_lit(p, r, j) == cons_lit(p, i));
        }
        if exists|j: int| 0 <= j < p.rule_ants(r).len() && ant_lit(p, r, j) == cons_lit(p, i) {
            let j = choose|j: int| 0 <= j < p.rule_ants(r).len() && ant_lit(p, r, j) == cons_lit(p, i);
            assert(p.syms()[p.rule_ants(r)[j] as int] == p.syms()[p.rule_cons(i) as int]);
            assert(p.rule_ants(r)[j] == p.rule_cons(i));
        }
    }
    if marked(p, act, s0, r, p.rule_count() as int) {
        let i = choose|i: int|
            0 <= i < p.rule_count() && #[trigger] fired(p, act, s0, i) && p.rule_ants(r).contains(p.rule_cons(i))
                && ready(p, act, upto(p, act, s0, i + 1), r);
        assert(fired_lits(p, act, s, i));
    }
    if left_waiting(p, act, s, r) {
        let i = choose|i: int|
            0 <= i < p.rule_count() && #[trigger] fired_lits(p, act, s, i) && (exists|j: int|
                0 <= j < p.rule_ants(r).len() && ant_lit(p, r, j) == cons_lit(p, i)) && ready_in(
                p,
                act,
                upto_lits(p, act, s, i + 1),
                r,
            );
        assert(fired(p, act, s0, i));
    }
}

/// Number of set flags.
fn count_set(v: &Vec<bool>) -> (n: usize)
    ensures
        n <= v@.len(),
        n == 0 <==> forall|i: int| 0 <= i < v@.len() ==> !v@[i],
        n == tally(v@.len() as int, |i: int| v@[i]),
{
    let mut n: usize = 0;
    let mut i: usize = 0;
    while i < v.len()
        invariant
            i <= v@.len(),
            n <= i,
            n == 0 <==> forall|k: int| 0 <= k < i ==> !v@[k],
            n == tally(i as int, |k: int| v@[k]),
        decreases v@.len() - i,
    {
        if v[i] {
            n = n + 1;
        }
        i = i + 1;
    }
    n
}

fn false_flags(n: usize) -> (v: Vec<bool>)
    ensures
        v@.len() == n,
        forall|i: int| 0 <= i < n ==> !v@[i],
{
    let mut v: Vec<bool> = Vec::new();
    let mut i: usize = 0;
    while i < n
        invariant
            i <= n,
            v@.len() == i,
            forall|k: int| 0 <= k < i ==> !v@[k],
        decreases n - i,
    {
        v.push(false);
        i = i + 1;
    }
    v
}


/// The active rules that are ready now.
fn initial_ready(p: &CompiledSymbolicProgram, act: &Vec<bool>, in_c: &Vec<bool>) -> (v: Vec<bool>)
    requires
        p.wf(),
        act@.len() == p.rule_count(),
        p.syms().len() <= in_c@.len(),
    ensures
        v@.len() == p.rule_count(),
        forall|r: int| 0 <= r < p.rule_count() ==> (v@[r] == ready(*p, act@, in_c@, r)),
{
    proof {
        p.lemma_wf();
    }
    let n = p.rule_total();
    let mut v: Vec<bool> = Vec::new();
    let mut r: usize = 0;
    while r < n
        invariant
            n == p.rule_count(),
            r <= n,
            v@.len() == r,
            act@.len() == n,
            p.syms().len() <= in_c@.len(),
            forall|q: int| 0 <= q < r ==> (v@[q] == ready(*p, act@, in_c@, q)),
            forall|q: int|
                0 <= q < p.rule_count() ==> {
                    &&& p.rule_cons(q) < p.syms().len()
                    &&& forall|j: int|
                        0 <= j < p.rule_ants(q).len() ==> #[trigger] p.rule_ants(q)[j] < p.syms().len()
                },
        decreases n - r,
    {
        let ants = p.rule_antecedents_at(r);
        let c = p.rule_consequent_at(r);
        let b = act[r] && all_in(ants, in_c) && !in_c[c];
        v.push(b);
        r = r + 1;
    }
    v
}

/// Runs rounds of forward chaining from the given state, for at most
/// `max_rounds` rounds. Each round fires, in rule order, the rules that were
/// ready at its start and are still ready; the rules that a firing makes ready
/// wait for the next round. Returns the rounds run and the number of rules
/// left ready, with the order in which facts entered the closure.
#[verifier::rlimit(100)]
#[verifier::loop_isolation(false)]
fn run_rounds(
    p: &CompiledSymbolicProgram,
    act: &Vec<bool>,
    in_c: &mut Vec<bool>,
    seed: &Vec<bool>,
    via: &mut Vec<usize>,
    matched: &mut Vec<String>,
    max_rounds: usize,
    order: &mut Vec<usize>,
    Ghost(seeds): Ghost<Set<LiteralView>>,
    Ghost(syms): Ghost<Seq<LiteralView>>,
) -> (out: (usize, usize))
    requires
        p.wf(),
        state_ok(*p, act@, seeds, syms, old(in_c)@, seed@, old(via)@, old(order)@),
        old(matched)@.len() == 0,
    ensures
        state_ok(*p, act@, seeds, syms, final(in_c)@, seed@, final(via)@, final(order)@),
        out.0 <= max_rounds,
        out.1 <= p.rule_count(),
        out.1 == 0 ==> forall|r: int| 0 <= r < p.rule_count() ==> !ready(*p, act@, final(in_c)@, r),
        out.1 > 0 ==> out.0 == max_rounds,
        forall|i: int| 0 <= i < syms.len() && old(in_c)@[i] ==> final(in_c)@[i],
        final(order)@.len() == old(order)@.len() + final(matched)@.len(),
        forall|k: int| 0 <= k < old(order)@.len() ==> final(order)@[k] == old(order)@[k],
        forall|t: int|
            0 <= t < final(matched)@.len() ==> (#[trigger] final(matched)@[t])@ == p.rule_id(
                final(via)@[final(order)@[old(order)@.len() + t] as int] as int,
            ) && !seed@[final(order)@[old(order)@.len() + t] as int],
        lits_in(syms, final(in_c)@) == iterate(*p, act@, lits_in(syms, old(in_c)@), out.0 as nat),
        forall|j: int| 1 <= j < out.0 ==> #[trigger] grew(*p, act@, lits_in(syms, old(in_c)@), j),
        tally(p.rule_count() as int, |r: int| ready_in(*p, act@, lits_in(syms, final(in_c)@), r)) <= out.1,
        out.1 <= tally(p.rule_count() as int, |r: int| may_pend(*p, act@, lits_in(syms, old(in_c)@), out.0 as nat, r)),
        out.1 == tally(p.rule_count() as int, |r: int| pending_after(*p, act@, lits_in(syms, old(in_c)@), out.0 as nat, r)),
{
    proof {
        p.lemma_wf();
    }
    let nr = p.rule_total();
    let mut current = initial_ready(p, act, in_c);
    let mut rounds: usize = 0;
    let ghost order0 = order@;
    let ghost in0 = in_c@;
    let ghost l0 = lits_in(syms, in_c@);
    let ghost mut prev: Seq<bool> = in_c@;
    while rounds < max_rounds
        invariant
            rounds <= max_rounds,
            state_ok(*p, act@, seeds, syms, in_c@, seed@, via@, order@),
            current@.len() == nr,
            forall|r: int| 0 <= r < nr && ready(*p, act@, in_c@, r) ==> current@[r],
            forall|i: int| 0 <= i < syms.len() && in0[i] ==> in_c@[i],
            order@.len() == order0.len() + matched@.len(),
            forall|k: int| 0 <= k < order0.len() ==> order@[k] == order0[k],
            forall|t: int|
                0 <= t < matched@.len() ==> (#[trigger] matched@[t])@ == p.rule_id(
                    via@[order@[order0.len() + t] as int] as int,
                ) && !seed@[order@[order0.len() + t] as int],
            lits_in(syms, in_c@) == iterate(*p, act@, l0, rounds as nat),
            forall|j: int| 1 <= j <= rounds ==> #[trigger] grew(*p, act@, l0, j),
            rounds == 0 ==> forall|r: int| 0 <= r < nr && #[trigger] current@[r] ==> ready(*p, act@, in_c@, r),
            rounds == 0 ==> forall|r: int| 0 <= r < nr ==> #[trigger] current@[r] == ready(*p, act@, in_c@, r),
            rounds > 0 ==> forall|r: int| 0 <= r < nr ==> #[trigger] current@[r] == marked(*p, act@, prev, r, nr as int),
            prev.len() == syms.len(),
            rounds > 0 ==> lits_in(syms, prev) == iterate(*p, act@, l0, (rounds - 1) as nat),
            rounds > 0 ==> forall|r: int|
                0 <= r < nr && #[trigger] current@[r] ==> {
                    &&& enabled(*p, act@, in_c@, r)
                    &&& !prev[p.rule_cons(r) as int]
                    &&& exists|j: int| 0 <= j < p.rule_ants(r).len() && !prev[#[trigger] p.rule_ants(r)[j] as int]
                },
        decreases max_rounds - rounds,
    {
        if count_set(&current) == 0 {
            break;
        }
        let ghost s0 = in_c@;
        proof {
            assert forall|r: int| 0 <= r < nr && #[trigger] current@[r] implies enabled(*p, act@, s0, r) by {
                if rounds == 0 {
                    assert(ready(*p, act@, in_c@, r));
                }
            }
        }
        rounds = rounds + 1;
        let mut changed = false;
        let mut next = false_flags(nr);
        let mut idx: usize = 0;
        proof {
            assert(in_c@ =~= upto(*p, act@, s0, 0));
        }
        while idx < nr
            invariant
                in_c@ == upto(*p, act@, s0, idx as int),
                forall|r: int| 0 <= r < nr ==> #[trigger] next@[r] == marked(*p, act@, s0, r, idx as int),
                p.wf(),
                nr == p.rule_count(),
                idx <= nr,
                state_ok(*p, act@, seeds, syms, in_c@, seed@, via@, order@),
                current@.len() == nr,
                next@.len() == nr,
                s0.len() == syms.len(),
                forall|r: int|
                    0 <= r < nr && ready(*p, act@, in_c@, r) ==> (current@[r] && r >= idx) || next@[r],
                !changed ==> forall|r: int| 0 <= r < nr ==> !next@[r],
                forall|i: int| 0 <= i < syms.len() && in0[i] ==> in_c@[i],
                order@.len() == order0.len() + matched@.len(),
                forall|k: int| 0 <= k < order0.len() ==> order@[k] == order0[k],
                forall|t: int|
                    0 <= t < matched@.len() ==> (#[trigger] matched@[t])@ == p.rule_id(
                        via@[order@[order0.len() + t] as int] as int,
                    ) && !seed@[order@[order0.len() + t] as int],
                forall|r: int| 0 <= r < nr && #[trigger] current@[r] ==> enabled(*p, act@, s0, r),
                forall|r: int| 0 <= r < nr && ready(*p, act@, s0, r) ==> current@[r],
                forall|i: int| 0 <= i < syms.len() && s0[i] ==> in_c@[i],
                forall|r: int| 0 <= r < idx && #[trigger] enabled(*p, act@, s0, r) ==> in_c@[p.rule_cons(r) as int],
                forall|i: int|
                    0 <= i < syms.len() && #[trigger] in_c@[i] ==> s0[i] || exists|r: int|
                        0 <= r < nr && enabled(*p, act@, s0, r) && p.rule_cons(r) == i,
                forall|r: int|
                    0 <= r < nr && #[trigger] next@[r] ==> {
                        &&& enabled(*p, act@, in_c@, r)
                        &&& !s0[p.rule_cons(r) as int]
                        &&& exists|j: int| 0 <= j < p.rule_ants(r).len() && !s0[#[trigger] p.rule_ants(r)[j] as int]
                    },
                changed ==> exists|i: int| 0 <= i < syms.len() && in_c@[i] && !s0[i],
            decreases nr - idx,
        {
            let ants = p.rule_antecedents_at(idx);
            let c = p.rule_consequent_at(idx);
            if current[idx] && act[idx] && all_in(ants, in_c) && !in_c[c] {
                let ghost in_before = in_c@;
                let ghost via_before = via@;
                let ghost order_before = order@;
                let ghost matched_before = matched@;
                let ghost next_before = next@;
                in_c.set(c, true);
                via.set(c, idx);
                matched.push(crate::text::copy_string(p.rule_id_at(idx)));
                order.push(c);
                proof {
                    let order = order@;
                    assert(!order_before.contains(c));
                    assert(!seed@[c as int]);
                    assert(order.subrange(0, order_before.len() as int) =~= order_before);
                    assert forall|k: int| 0 <= k < order.len() implies #[trigger] justified(
                        *p,
                        act@,
                        seed@,
                        via@,
                        order,
                        k,
                    ) by {
                        if k < order_before.len() {
                            assert(justified(*p, act@, seed@, via_before, order_before, k));
                            assert(order[k] == order_before[k]);
                            assert(order_before[k] != c);
                            assert(order.subrange(0, k) =~= order_before.subrange(0, k));
                        } else {
                            assert(order.subrange(0, k) =~= order_before);
                            assert forall|j: int| 0 <= j < p.rule_ants(idx as int).len() implies order.subrange(
                                0,
                                k,
                            ).contains(#[trigger] p.rule_ants(idx as int)[j]) by {
                                assert(in_before[p.rule_ants(idx as int)[j] as int]);
                            }
                        }
                    }
                    assert forall|i: int| 0 <= i < syms.len() implies (#[trigger] in_c@[i]
                        <==> order.contains(i as usize)) by {
                        assert(i < in_c@.len());
                        assert((i as usize) as int == i);
                        if i != c {
                            assert(in_c@[i] == in_before[i]);
                            assert(in_before[i] <==> order_before.contains(i as usize));
                            if order.contains(i as usize) {
                                let w = choose|w: int| 0 <= w < order.len() && order[w] == i as usize;
                                if w < order_before.len() {
                                    assert(order_before[w] == i as usize);
                                }
                            }
                            if order_before.contains(i as usize) {
                                let w = choose|w: int| 0 <= w < order_before.len() && order_before[w] == i as usize;
                                assert(order[w] == i as usize);
                            }
                        } else {
                            assert(order[order.len() - 1] == c);
                        }
                    }
                    assert forall|t: int| 0 <= t < matched@.len() implies (#[trigger] matched@[t])@
                        == p.rule_id(via@[order[order0.len() + t] as int] as int) && !seed@[order[order0.len() + t] as int] by {
                        if t < matched_before.len() {
                            assert(matched@[t] == matched_before[t]);
                            assert(order[order0.len() + t] == order_before[order0.len() + t]);
                            assert(order_before[order0.len() + t] != c);
                        }
                    }
                    assert(!s0[c as int]);
                    assert(enabled(*p, act@, s0, idx as int));
                    assert forall|r: int| 0 <= r <= idx && #[trigger] enabled(*p, act@, s0, r) implies in_c@[p.rule_cons(r) as int] by {
                        if r < idx {
                            assert(in_before[p.rule_cons(r) as int]);
                        }
                    }
                    assert forall|i: int|
                        0 <= i < syms.len() && #[trigger] in_c@[i] implies s0[i] || exists|r: int|
                            0 <= r < nr && enabled(*p, act@, s0, r) && p.rule_cons(r) == i by {
                        if i != c {
                            assert(in_before[i]);
                        } else {
                            assert(enabled(*p, act@, s0, idx as int) && p.rule_cons(idx as int) == i);
                        }
                    }
                    assert forall|r: int| 0 <= r < nr && #[trigger] next@[r] implies enabled(*p, act@, in_c@, r) by {
                        assert(enabled(*p, act@, in_before, r));
                        assert forall|j: int| 0 <= j < p.rule_ants(r).len() implies in_c@[#[trigger] p.rule_ants(r)[j] as int] by {
                            assert(in_before[p.rule_ants(r)[j] as int]);
                        }
                    }
                    assert(in_c@[c as int] && !s0[c as int]);
                    assert(fired(*p, act@, s0, idx as int));
                    assert forall|k: int| 0 <= k < in_c@.len() implies in_c@[k] == upto(*p, act@, s0, idx as int + 1)[k] by {
                        if k == c {
                            assert(enabled(*p, act@, s0, idx as int) && p.rule_cons(idx as int) == k);
                        } else {
                            assert(in_c@[k] == in_before[k]);
                            if exists|r: int| 0 <= r < idx + 1 && #[trigger] enabled(*p, act@, s0, r) && p.rule_cons(r) == k {
                                let r = choose|r: int| 0 <= r < idx + 1 && #[trigger] enabled(*p, act@, s0, r) && p.rule_cons(r) == k;
                                assert(r != idx);
                                assert(in_before[k]);
                            }
                        }
                    }
                    assert(in_c@ =~= upto(*p, act@, s0, idx as int + 1));
                }
                changed = true;
                let ghost in_now = in_c@;
                let mut r2: usize = 0;
                while r2 < nr
                    invariant
                        nr == p.rule_count(),
                        r2 <= nr,
                        next@.len() == nr,
                        in_c@ == in_now,
                        in_c@[c as int],
                        !s0[c as int],
                        s0.len() == syms.len(),
                        in_c@.len() == syms.len(),
                        forall|i: int| 0 <= i < syms.len() && s0[i] ==> in_c@[i],
                        forall|r: int| 0 <= r < nr && next_before[r] ==> next@[r],
                        forall|r: int|
                            0 <= r < nr ==> #[trigger] next@[r] == (next_before[r] || (r < r2 && ready(*p, act@, in_c@, r)
                                && p.rule_ants(r).contains(c))),
                        forall|r: int|
                            0 <= r < r2 && ready(*p, act@, in_c@, r) && p.rule_ants(r).contains(c)
                                ==> next@[r],
                        forall|r: int|
                            0 <= r < nr && #[trigger] next@[r] ==> {
                                &&& enabled(*p, act@, in_c@, r)
                                &&& !s0[p.rule_cons(r) as int]
                                &&& exists|j: int| 0 <= j < p.rule_ants(r).len() && !s0[#[trigger] p.rule_ants(r)[j] as int]
                            },
                        p.syms().len() <= in_c@.len(),
                        act@.len() == nr,
                    decreases nr - r2,
                {
                    let a2 = p.rule_antecedents_at(r2);
                    let c2 = p.rule_consequent_at(r2);
                    if act[r2] && has_id(a2, c) && all_in(a2, in_c) && !in_c[c2] {
                        proof {
                            let w = choose|w: int| 0 <= w < a2@.len() && a2@[w] == c;
                            assert(!s0[p.rule_ants(r2 as int)[w] as int]);
                            assert(enabled(*p, act@, in_c@, r2 as int));
                            assert(!s0[p.rule_cons(r2 as int) as int]);
                        }
                        next.set(r2, true);
                    }
                    r2 = r2 + 1;
                }
                proof {
                    assert forall|r: int| 0 <= r < nr implies #[trigger] next@[r] == marked(*p, act@, s0, r, idx as int + 1) by {
                        assert(next_before[r] == marked(*p, act@, s0, r, idx as int));
                        if marked(*p, act@, s0, r, idx as int + 1) && !marked(*p, act@, s0, r, idx as int) {
                            let i = choose|i: int|
                                0 <= i < idx + 1 && #[trigger] fired(*p, act@, s0, i) && p.rule_ants(r).contains(p.rule_cons(i))
                                    && ready(*p, act@, upto(*p, act@, s0, i + 1), r);
                            assert(i == idx);
                        }
                        if next@[r] && !next_before[r] {
                            assert(fired(*p, act@, s0, idx as int) && p.rule_ants(r).contains(p.rule_cons(idx as int))
                                && ready(*p, act@, upto(*p, act@, s0, idx as int + 1), r));
                        }
                        if marked(*p, act@, s0, r, idx as int) {
                            let i = choose|i: int|
                                0 <= i < idx && #[trigger] fired(*p, act@, s0, i) && p.rule_ants(r).contains(p.rule_cons(i))
                                    && ready(*p, act@, upto(*p, act@, s0, i + 1), r);
                            assert(0 <= i < idx + 1);
                        }
                    }
                    assert forall|r: int| 0 <= r < nr && ready(*p, act@, in_c@, r) implies (current@[r] && r
                        >= idx + 1) || next@[r] by {
                        if !p.rule_ants(r).contains(c) {
                            assert forall|j: int| 0 <= j < p.rule_ants(r).len() implies in_before[
                                #[trigger] p.rule_ants(r)[j] as int] by {
                                assert(p.rule_ants(r)[j] != c);
                                assert(in_c@[p.rule_ants(r)[j] as int] == in_before[p.rule_ants(r)[j] as int]);
                            }
                            let cr = p.rule_cons(r) as int;
                            assert(!in_c@[cr]);
                            assert(cr != c);
                            assert(in_c@[cr] == in_before[cr]);
                            assert(ready(*p, act@, in_before, r));
                            assert((current@[r] && r >= idx) || next_before[r]);
                            if !next_before[r] {
                                assert(p.rule_cons(idx as int) == c);
                                assert(r != idx);
                            }
                        } else {
                            assert(next@[r]);
                        }
                    }
                }
            } else {
                proof {
                    assert(!ready(*p, act@, in_c@, idx as int) || !current@[idx as int]);
                    if enabled(*p, act@, s0, idx as int) && !in_c@[c as int] {
                        assert(!s0[c as int]);
                        assert(ready(*p, act@, s0, idx as int));
                        assert(current@[idx as int]);
                        assert forall|j: int| 0 <= j < ants@.len() implies in_c@[#[trigger] ants@[j] as int] by {
                            assert(s0[p.rule_ants(idx as int)[j] as int]);
                        }
                        assert(false);
                    }
                    assert(!fired(*p, act@, s0, idx as int)) by {
                        if fired(*p, act@, s0, idx as int) {
                            assert(!s0[c as int]);
                            assert(ready(*p, act@, s0, idx as int));
                            assert forall|j: int| 0 <= j < ants@.len() implies in_c@[#[trigger] ants@[j] as int] by {
                                assert(s0[p.rule_ants(idx as int)[j] as int]);
                            }
                        }
                    }
                    assert forall|k: int| 0 <= k < in_c@.len() implies in_c@[k] == upto(*p, act@, s0, idx as int + 1)[k] by {
                        if exists|r: int| 0 <= r < idx + 1 && #[trigger] enabled(*p, act@, s0, r) && p.rule_cons(r) == k {
                            let r = choose|r: int| 0 <= r < idx + 1 && #[trigger] enabled(*p, act@, s0, r) && p.rule_cons(r) == k;
                            if r == idx {
                                assert(upto(*p, act@, s0, idx as int)[k]);
                            }
                        }
                    }
                    assert(in_c@ =~= upto(*p, act@, s0, idx as int + 1));
                    assert forall|r: int| 0 <= r < nr implies #[trigger] next@[r] == marked(*p, act@, s0, r, idx as int + 1) by {
                        if marked(*p, act@, s0, r, idx as int + 1) {
                            let i = choose|i: int|
                                0 <= i < idx + 1 && #[trigger] fired(*p, act@, s0, i) && p.rule_ants(r).contains(p.rule_cons(i))
                                    && ready(*p, act@, upto(*p, act@, s0, i + 1), r);
                            assert(i != idx);
                            assert(marked(*p, act@, s0, r, idx as int));
                        }
                        if marked(*p, act@, s0, r, idx as int) {
                            let i = choose|i: int|
                                0 <= i < idx && #[trigger] fired(*p, act@, s0, i) && p.rule_ants(r).contains(p.rule_cons(i))
                                    && ready(*p, act@, upto(*p, act@, s0, i + 1), r);
                            assert(0 <= i < idx + 1);
                        }
                    }
                }
            }
            idx = idx + 1;
        }
        proof {
            lemma_round(*p, act@, syms, s0, in_c@);
            assert(lits_in(syms, in_c@) == iterate(*p, act@, l0, rounds as nat));
        }
        if !changed {
            proof {
                assert forall|r: int| 0 <= r < nr implies !ready(*p, act@, in_c@, r) by {
                    assert(!next@[r]);
                }
                assert forall|r: int| 0 <= r < nr implies !marked(*p, act@, s0, r, nr as int) by {
                    assert(!next@[r]);
                }
                prev = s0;
            }
            current = false_flags(nr);
            break;
        }
        proof {
            let i = choose|i: int| 0 <= i < syms.len() && in_c@[i] && !s0[i];
            lemma_lits_grow(*p, syms, s0, in_c@, i);
            assert(grew(*p, act@, l0, rounds as int));
            prev = s0;
        }
        current = next;
    }
    let pending = count_set(&current);
    proof {
        if pending == 0 {
            assert forall|r: int| 0 <= r < nr implies !ready(*p, act@, in_c@, r) by {
                assert(!current@[r]);
            }
        }
        let fin = lits_in(syms, in_c@);
        lemma_lits_in(*p, syms, in_c@);
        lemma_lits_in(*p, syms, prev);
        assert(l0 == lits_in(syms, in0));
        assert forall|r: int| 0 <= r < nr && #[trigger] ready_in(*p, act@, fin, r) implies current@[r] by {
            assert(ready(*p, act@, in_c@, r));
        }
        lemma_tally_mono(nr as int, |r: int| ready_in(*p, act@, fin, r), |r: int| current@[r]);
        assert forall|r: int| 0 <= r < nr && #[trigger] current@[r] implies may_pend(*p, act@, l0, rounds as nat, r) by {
            if rounds == 0 {
                assert(ready(*p, act@, in_c@, r));
                assert(ready_in(*p, act@, fin, r));
            } else {
                let j = choose|j: int| 0 <= j < p.rule_ants(r).len() && !prev[#[trigger] p.rule_ants(r)[j] as int];
                assert(!lits_in(syms, prev).contains(ant_lit(*p, r, j)));
                assert(enabled(*p, act@, in_c@, r));
                assert(fires_in(*p, r, fin));
                assert(waiting_after(*p, act@, lits_in(syms, prev), fin, r));
            }
        }
        lemma_tally_mono(nr as int, |r: int| current@[r], |r: int| may_pend(*p, act@, l0, rounds as nat, r));
        assert forall|r: int| 0 <= r < nr implies #[trigger] current@[r] == pending_after(*p, act@, l0, rounds as nat, r) by {
            if rounds == 0 {
                lemma_ready_lits(*p, act@, syms, in_c@, r);
            } else {
                lemma_marked_lits(*p, act@, syms, prev, r);
            }
        }
        lemma_tally_eq(nr as int, |r: int| current@[r], |r: int| pending_after(*p, act@, l0, rounds as nat, r));
    }
    (rounds, pending)
}


/// The rule nodes, among the first `k`, of the rules concluding fact `f`.
fn concluding_rules(p: &CompiledSymbolicProgram, f: usize, base: usize) -> (v: Vec<usize>)
    requires
        base as int == fact_nodes(*p),
        base + p.rule_count() <= usize::MAX,
    ensures
        v@ == concluding(*p, f as int, p.rule_count() as int),
{
    let n = p.rule_total();
    let mut v: Vec<usize> = Vec::new();
    let mut r: usize = 0;
    while r < n
        invariant
            n == p.rule_count(),
            r <= n,
            base as int == fact_nodes(*p),
            base + n <= usize::MAX,
            v@ == concluding(*p, f as int, r as int),
        decreases n - r,
    {
        if p.rule_consequent_at(r) == f {
            v.push(base + r);
        }
        r = r + 1;
    }
    v
}

/// The dependency graph of the program (see `need_graph`).
fn need_adjacency(p: &CompiledSymbolicProgram) -> (adj: Vec<Vec<usize>>)
    requires
        p.wf(),
        p.syms().len() + 1 + p.rule_count() <= usize::MAX,
    ensures
        adj@.map_values(|a: Vec<usize>| a@) == need_graph(*p),
{
    let base = p.symbols().len() + 1;
    let n = p.rule_total();
    let mut adj: Vec<Vec<usize>> = Vec::new();
    let mut f: usize = 0;
    while f < base
        invariant
            base as int == fact_nodes(*p),
            n == p.rule_count(),
            base + n <= usize::MAX,
            f <= base,
            adj@.len() == f,
            forall|k: int| 0 <= k < f ==> (#[trigger] adj@[k])@ == need_graph(*p)[k],
        decreases base - f,
    {
        adj.push(concluding_rules(p, f, base));
        f = f + 1;
    }
    let mut r: usize = 0;
    while r < n
        invariant
            base as int == fact_nodes(*p),
            n == p.rule_count(),
            base + n <= usize::MAX,
            r <= n,
            adj@.len() == base + r,
            forall|k: int| 0 <= k < base + r ==> (#[trigger] adj@[k])@ == need_graph(*p)[k],
        decreases n - r,
    {
        let ants = p.rule_antecedents_at(r);
        let mut row: Vec<usize> = Vec::new();
        let mut j: usize = 0;
        while j < ants.len()
            invariant
                j <= ants@.len(),
                row@ == ants@.subrange(0, j as int),
            decreases ants@.len() - j,
        {
            row.push(ants[j]);
            j = j + 1;
            assert(row@ =~= ants@.subrange(0, j as int));
        }
        assert(ants@.subrange(0, ants@.len() as int) =~= ants@);
        adj.push(row);
        r = r + 1;
    }
    assert(adj@.map_values(|a: Vec<usize>| a@) =~= need_graph(*p));
    adj
}

/// Which rules take part (see `active_rules`).
fn compute_active(p: &CompiledSymbolicProgram, qid: usize, scope: SymbolicEvaluationScope, Ghost(q): Ghost<LiteralView>) -> (act: Vec<bool>)
    requires
        p.wf(),
        qid as int == lit_node(*p, q),
        p.syms().len() + 1 + p.rule_count() <= usize::MAX,
    ensures
        act@ == active_rules(*p, q, scope),
{
    let n = p.rule_total();
    let mut act: Vec<bool> = Vec::new();
    match scope {
        SymbolicEvaluationScope::Full => {
            let mut r: usize = 0;
            while r < n
                invariant
                    n == p.rule_count(),
                    r <= n,
                    scope is Full,
                    act@.len() == r,
                    forall|k: int| 0 <= k < r ==> act@[k] == active_rules(*p, q, scope)[k],
                decreases n - r,
            {
                act.push(true);
                r = r + 1;
            }
        },
        SymbolicEvaluationScope::QueryDirected => {
            let adj = need_adjacency(p);
            let base = p.symbols().len() + 1;
            proof {
                let g = need_graph(*p);
                assert(adj@.map_values(|a: Vec<usize>| a@) == g);
                assert(adj@.len() == g.len());
                assert(adj@.len() == base + n);
                p.lemma_wf();
                assert forall|u: int, k: int|
                    0 <= u < adj@.len() && 0 <= k < adj@[u]@.len() implies (#[trigger] adj@[u]@[k]) < adj@.len() by {
                    assert(adj@[u]@ == g[u]);
                    if u < fact_nodes(*p) {
                        lemma_concluding_bound(*p, u, p.rule_count() as int);
                        assert(g[u] == concluding(*p, u, p.rule_count() as int));
                    } else {
                        assert(g[u] == p.rule_ants(u - fact_nodes(*p)));
                        assert(p.rule_ants(u - fact_nodes(*p))[k] < p.syms().len());
                    }
                }
                if p.syms().contains(q) {
                    let w = choose|i: int| 0 <= i < p.syms().len() && p.syms()[i] == q;
                    assert(0 <= w < p.syms().len());
                }
                assert(qid < adj@.len());
            }
            let vis = reachable_set(&adj, qid);
            let mut r: usize = 0;
            while r < n
                invariant
                    n == p.rule_count(),
                    base as int == fact_nodes(*p),
                    base + n <= usize::MAX,
                    r <= n,
                    scope is QueryDirected,
                    vis@.len() == adj@.len(),
                    adj@.len() == base + n,
                    adj@.map_values(|a: Vec<usize>| a@) == need_graph(*p),
                    forall|v: int|
                        0 <= v < adj@.len() ==> (vis@[v] <==> reachable(
                            adj@.map_values(|a: Vec<usize>| a@),
                            qid as int,
                            v,
                        )),
                    qid as int == lit_node(*p, q),
                    act@.len() == r,
                    forall|k: int| 0 <= k < r ==> act@[k] == active_rules(*p, q, scope)[k],
                decreases n - r,
            {
                act.push(vis[base + r]);
                r = r + 1;
            }
        },
    }
    assert(act@ =~= active_rules(*p, q, scope));
    act
}

proof fn lemma_concluding_bound(p: CompiledSymbolicProgram, f: int, k: int)
    requires
        0 <= k <= p.rule_count(),
        fact_nodes(p) + p.rule_count() <= usize::MAX,
    ensures
        forall|j: int| 0 <= j < concluding(p, f, k).len() ==> #[trigger] concluding(p, f, k)[j] < fact_nodes(p) + p.rule_count(),
    decreases k,
{
    if k > 0 {
        lemma_concluding_bound(p, f, k - 1);
        let prev = concluding(p, f, k - 1);
        let x = fact_nodes(p) + k - 1;
        assert(0 <= x <= usize::MAX);
        assert((x as usize) as int == x);
        if p.rule_cons(k - 1) == f {
            assert(concluding(p, f, k) == prev.push(x as usize));
            assert forall|j: int| 0 <= j < concluding(p, f, k).len() implies #[trigger] concluding(p, f, k)[j]
                < fact_nodes(p) + p.rule_count() by {
                if j < prev.len() {
                    assert(concluding(p, f, k)[j] == prev[j]);
                }
            }
        }
    }
}


/// The outcome of one symbolic evaluation.
pub struct SymbolicEvaluation {
    /// Canonical texts of the closure, sorted.
    pub derived_facts: Vec<String>,
    /// Ids of the rules that fired, in firing order.
    pub matched_rules: Vec<String>,
    /// Whether the query is in the closure.
    pub entailed: bool,
    /// One node per closure fact with what justified it, sorted by fact.
    pub support_graph: Vec<crate::reasoning_types::ReasoningSupportNode>,
    /// Literal/negation pairs both in the closure, sorted.
    pub contradictions: Vec<crate::reasoning_types::ReasoningContradiction>,
    /// Canonical texts of the facts the query rests on, sorted.
    pub query_support: Vec<String>,
    /// Whether a fixed point was reached.
    pub closure_status: SymbolicClosureStatus,
    /// Rounds run.
    pub rounds_executed: usize,
    /// Rules left ready when the round bound was reached.
    pub pending_rule_count: usize,
    /// The literal table of the evaluation: the program's literals, then new ones.
    pub symbols: Ghost<Seq<LiteralView>>,
    /// The closure as positions in `symbols`, in the order facts entered it.
    pub order: Ghost<Seq<usize>>,
    /// For each position, the rule that derived it, or -1.
    pub derived_by: Ghost<Seq<int>>,
    /// The position of the query in `symbols`.
    pub query_id: Ghost<int>,
}

/// The closure of an evaluation, in the order facts entered it.
pub open spec fn closure_lits(ev: SymbolicEvaluation) -> Seq<LiteralView> {
    ev.order@.map_values(|i: usize| ev.symbols@[i as int])
}

/// The canonical texts of literals.
pub open spec fn canon_texts(v: Seq<LiteralView>) -> Seq<Seq<char>> {
    v.map_values(|l: LiteralView| crate::symbolic_parse::literal_canon(l))
}

/// The `t`-th matched rule derived the `t`-th fact that entered the closure after the seeds.
pub open spec fn matched_at(p: CompiledSymbolicProgram, ev: SymbolicEvaluation, t: int) -> bool {
    let f = ev.order@[ev.order@.len() - ev.matched_rules@.len() + t] as int;
    &&& ev.derived_by@[f] >= 0
    &&& ev.matched_rules@[t]@ == p.rule_id(ev.derived_by@[f])
}

/// The antecedents of the rule that derived the `k`-th fact of the order all
/// entered the closure before it.
pub open spec fn derived_after(p: CompiledSymbolicProgram, order: Seq<usize>, by: Seq<int>, k: int) -> bool {
    let r = by[order[k] as int];
    forall|j: int| 0 <= j < p.rule_ants(r).len() ==> order.subrange(0, k).contains(#[trigger] p.rule_ants(r)[j])
}

/// What an evaluation promises about its closure, status and derived facts.
pub open spec fn closure_ok(
    p: CompiledSymbolicProgram,
    q: LiteralView,
    inputs: Seq<LiteralView>,
    scope: SymbolicEvaluationScope,
    max_rounds: usize,
    ev: SymbolicEvaluation,
) -> bool {
    let act = active_rules(p, q, scope);
    let seeds = seeds_of(p, inputs);
    let syms = ev.symbols@;
    let order = ev.order@;
    let cl = closure_lits(ev);
    let by = ev.derived_by@;
    let first_derived = order.len() - ev.matched_rules@.len();
    &&& ext_ok(p, syms)
    &&& 0 <= ev.query_id@ < syms.len() && syms[ev.query_id@] == q
    &&& order.no_duplicates()
    &&& forall|k: int| 0 <= k < order.len() ==> #[trigger] order[k] < syms.len()
    &&& by.len() == syms.len()
    &&& forall|l: LiteralView| seeds.contains(l) ==> cl.contains(l)
    &&& forall|k: int| 0 <= k < cl.len() ==> entailed_by(p, act, seeds, #[trigger] cl[k])
    &&& (ev.closure_status is Saturated <==> ev.pending_rule_count == 0)
    &&& ev.closure_status is Saturated ==> closed_under(p, act, cl.to_set())
    &&& cl.to_set() == iterate(p, act, seeds, ev.rounds_executed as nat)
    &&& forall|j: int| 1 <= j < ev.rounds_executed ==> #[trigger] grew(p, act, seeds, j)
    &&& tally(p.rule_count() as int, |r: int| ready_in(p, act, cl.to_set(), r)) <= ev.pending_rule_count
    &&& ev.pending_rule_count <= tally(
        p.rule_count() as int,
        |r: int| may_pend(p, act, seeds, ev.rounds_executed as nat, r),
    )
    &&& ev.pending_rule_count == tally(
        p.rule_count() as int,
        |r: int| pending_after(p, act, seeds, ev.rounds_executed as nat, r),
    )
    &&& ev.rounds_executed <= max_rounds
    &&& ev.pending_rule_count > 0 ==> ev.rounds_executed == max_rounds
    &&& ev.pending_rule_count <= p.rule_count()
    &&& ev.entailed == cl.contains(q)
    &&& crate::order::sorted_keys(ev.derived_facts@)
    &&& strs(ev.derived_facts@).to_multiset() == canon_texts(cl).to_multiset()
    &&& 0 <= first_derived
    &&& forall|k: int| 0 <= k < first_derived ==> by[#[trigger] order[k] as int] < 0 && seeds.contains(syms[order[k] as int])
    &&& forall|t: int| 0 <= t < ev.matched_rules@.len() ==> #[trigger] matched_at(p, ev, t)
    &&& forall|k: int| 0 <= k < order.len() && by[#[trigger] order[k] as int] >= 0 ==> derived_after(p, order, by, k)
    &&& forall|i: int|
        0 <= i < syms.len() && #[trigger] by[i] >= 0 ==> {
            &&& order.contains(i as usize)
            &&& by[i] < p.rule_count()
            &&& act[by[i]]
            &&& p.rule_cons(by[i]) == i
            &&& forall|j: int| 0 <= j < p.rule_ants(by[i]).len() ==> order.contains(#[trigger] p.rule_ants(by[i])[j])
        }
}

/// What an evaluation promises about its contradictions, query support and
/// support graph.
pub open spec fn outputs_ok(p: CompiledSymbolicProgram, q: LiteralView, ev: SymbolicEvaluation) -> bool {
    let syms = ev.symbols@;
    let by = ev.derived_by@;
    let cl = closure_lits(ev);
    &&& contradictions_ok(cl, ev.contradictions@)
    &&& !cl.contains(q) ==> ev.query_support@.len() == 0
    &&& cl.contains(q) ==> crate::order::sorted_keys(ev.query_support@) && strs(ev.query_support@).to_multiset()
        == canon_texts(reached(support_edges(p, by), ev.query_id@, syms, syms.len() as int)).to_multiset()
    &&& crate::order::sorted_keys(ev.support_graph@)
    &&& nodes_view(ev.support_graph@).to_multiset() == ev.order@.map_values(
        |i: usize| node_of(p, syms, by, i as int),
    ).to_multiset()
}

fn clone_symbols(p: &CompiledSymbolicProgram) -> (v: Vec<SymbolicLiteral>)
    ensures
        lits_view(v@) == p.syms(),
{
    let src = p.symbols();
    let mut v: Vec<SymbolicLiteral> = Vec::new();
    let mut i: usize = 0;
    while i < src.len()
        invariant
            i <= src@.len(),
            v@.len() == i,
            forall|k: int| 0 <= k < i ==> (#[trigger] v@[k])@ == src@[k]@,
        decreases src@.len() - i,
    {
        v.push(copy_literal(&src[i]));
        i = i + 1;
    }
    assert(lits_view(v@) =~= lits_view(src@));
    v
}

proof fn lemma_intern_ext(p: CompiledSymbolicProgram, before: Seq<LiteralView>, after: Seq<LiteralView>, l: LiteralView)
    requires
        ext_ok(p, before),
        after.no_duplicates(),
        before.contains(l) ==> after == before,
        !before.contains(l) ==> after == before.push(l),
    ensures
        ext_ok(p, after),
        before.len() <= after.len(),
        forall|i: int| 0 <= i < before.len() ==> after[i] == before[i],
{
}


/// `k` is the atom of a positive and of a negative literal of `cl`.
pub open spec fn contra_key(cl: Seq<LiteralView>, k: Seq<char>) -> bool {
    &&& exists|i: int| 0 <= i < cl.len() && !cl[i].negative && crate::symbolic_parse::atom_canon(#[trigger] cl[i].atom) == k
    &&& exists|j: int| 0 <= j < cl.len() && cl[j].negative && crate::symbolic_parse::atom_canon(#[trigger] cl[j].atom) == k
}

/// The contradictions of a closure: one pair `(k, not k)` per atom text `k`
/// held both positively and negatively, in ascending order of `k`.
pub open spec fn contradictions_ok(cl: Seq<LiteralView>, cs: Seq<ReasoningContradiction>) -> bool {
    &&& crate::order::strictly_sorted(cs)
    &&& forall|i: int|
        0 <= i < cs.len() ==> (#[trigger] cs[i]).negative@ == crate::symbolic_parse::not_prefix() + cs[i].positive@
            && contra_key(cl, cs[i].positive@)
    &&& forall|k: Seq<char>| contra_key(cl, k) ==> exists|i: int| 0 <= i < cs.len() && (#[trigger] cs[i]).positive@ == k
}

fn has_text(v: &Vec<String>, s: &str) -> (r: bool)
    ensures
        r == strs(v@).contains(s@),
{
    let mut i: usize = 0;
    while i < v.len()
        invariant
            i <= v@.len(),
            forall|k: int| 0 <= k < i ==> v@[k]@ != s@,
        decreases v@.len() - i,
    {
        if crate::symbolic_program::str_eq(v[i].as_str(), s) {
            assert(strs(v@)[i as int] == s@);
            return true;
        }
        i = i + 1;
    }
    false
}

/// The contradictions of the closure listed by `order` (see `contradictions_ok`).
#[verifier::loop_isolation(false)]
fn detect_contradictions(syms: &Vec<SymbolicLiteral>, order: &Vec<usize>) -> (cs: Vec<ReasoningContradiction>)
    requires
        forall|k: int| 0 <= k < order@.len() ==> #[trigger] order@[k] < syms@.len(),
    ensures
        contradictions_ok(order@.map_values(|i: usize| lits_view(syms@)[i as int]), cs@),
{
    let ghost cl = order@.map_values(|i: usize| lits_view(syms@)[i as int]);
    let mut keys: Vec<String> = Vec::new();
    let mut a: usize = 0;
    while a < order.len()
        invariant
            a <= order@.len(),
            strs(keys@).no_duplicates(),
            forall|x: int| 0 <= x < keys@.len() ==> contra_key(cl, #[trigger] strs(keys@)[x]),
            forall|x: int|
                0 <= x < a && !cl[x].negative && contra_key(cl, crate::symbolic_parse::atom_canon(#[trigger] cl[x].atom))
                    ==> strs(keys@).contains(crate::symbolic_parse::atom_canon(cl[x].atom)),
        decreases order@.len() - a,
    {
        let la = &syms[order[a]];
        let ghost kb0 = strs(keys@);
        proof {
            assert(cl[a as int] == la@);
        }
        if !la.negative {
            let ka = la.contradiction_key();
            let mut found = false;
            let mut b: usize = 0;
            while b < order.len()
                invariant
                    b <= order@.len(),
                    found == exists|y: int| 0 <= y < b && cl[y].negative && crate::symbolic_parse::atom_canon(#[trigger] cl[y].atom) == ka@,
                decreases order@.len() - b,
            {
                let lb = &syms[order[b]];
                proof {
                    assert(cl[b as int] == lb@);
                }
                let ghost fb = found;
                if lb.negative {
                    let kb = lb.contradiction_key();
                    if crate::symbolic_program::str_eq(kb.as_str(), ka.as_str()) {
                        found = true;
                    }
                    proof {
                        assert(crate::symbolic_parse::atom_canon(cl[b as int].atom) == kb@);
                    }
                }
                proof {
                    if found && !fb {
                        assert(cl[b as int].negative && crate::symbolic_parse::atom_canon(cl[b as int].atom) == ka@);
                    }
                    if !found {
                        assert(!(cl[b as int].negative && crate::symbolic_parse::atom_canon(cl[b as int].atom) == ka@));
                    }
                }
                b = b + 1;
            }
            proof {
                if found {
                    assert(!cl[a as int].negative && crate::symbolic_parse::atom_canon(cl[a as int].atom) == ka@);
                    assert(contra_key(cl, ka@));
                }
            }
            let ghost kav = ka@;
            if found && !has_text(&keys, ka.as_str()) {
                let ghost kb = strs(keys@);
                keys.push(ka);
                proof {
                    assert(strs(keys@) =~= kb.push(kav));
                    assert(strs(keys@)[kb.len() as int] == kav);
                }
            }
            proof {
                if contra_key(cl, kav) {
                    let j = choose|j: int| 0 <= j < cl.len() && cl[j].negative && crate::symbolic_parse::atom_canon(#[trigger] cl[j].atom) == kav;
                    assert(found);
                    assert(strs(keys@).contains(kav));
                }
            }
        }
        proof {
            assert forall|x: int| 0 <= x < a + 1 && !cl[x].negative && contra_key(cl, crate::symbolic_parse::atom_canon(#[trigger] cl[x].atom))
                implies strs(keys@).contains(crate::symbolic_parse::atom_canon(cl[x].atom)) by {
                let kx = crate::symbolic_parse::atom_canon(cl[x].atom);
                if x < a {
                    assert(kb0.contains(kx));
                    let w = choose|w: int| 0 <= w < kb0.len() && kb0[w] == kx;
                    assert(strs(keys@)[w] == kx);
                }
            }
        }
        a = a + 1;
    }
    proof {
        assert forall|x: int, y: int| 0 <= x < keys@.len() && 0 <= y < keys@.len() && x != y implies !crate::order::same_key(
            #[trigger] keys@[x],
            #[trigger] keys@[y],
        ) by {
            assert(strs(keys@)[x] != strs(keys@)[y]);
            vstd::utf8::encode_utf8_decode_utf8(keys@[x]@);
            vstd::utf8::encode_utf8_decode_utf8(keys@[y]@);
        }
    }
    let ghost keys_v = keys@;
    let sorted = crate::order::sort_by_keys(keys);
    broadcast use vstd::seq_lib::group_to_multiset_ensures;
    proof {
        crate::order::lemma_multiset_map(sorted@, keys_v, |s: String| s@);
    }
    let mut cs: Vec<ReasoningContradiction> = Vec::new();
    let mut i: usize = 0;
    while i < sorted.len()
        invariant
            i <= sorted@.len(),
            cs@.len() == i,
            forall|x: int| 0 <= x < i ==> (#[trigger] cs@[x]).positive@ == sorted@[x]@
                && cs@[x].negative@ == crate::symbolic_parse::not_prefix() + sorted@[x]@,
        decreases sorted@.len() - i,
    {
        let pos = crate::text::copy_string(&sorted[i]);
        let mut neg = String::from_str("not ");
        proof {
            reveal_strlit("not ");
        }
        crate::text::push_str(&mut neg, sorted[i].as_str());
        assert(neg@ =~= crate::symbolic_parse::not_prefix() + sorted@[i as int]@);
        cs.push(ReasoningContradiction { positive: pos, negative: neg });
        i = i + 1;
    }
    proof {
        assert forall|x: int, y: int| 0 <= x < y < cs@.len() implies crate::order::key_lt(#[trigger] cs@[x], #[trigger] cs@[y]) by {
            assert(crate::order::key_lt(sorted@[x], sorted@[y]));
        }
        assert forall|x: int| 0 <= x < cs@.len() implies contra_key(cl, (#[trigger] cs@[x]).positive@) by {
            assert(strs(sorted@)[x] == sorted@[x]@);
            assert(strs(sorted@).contains(sorted@[x]@));
            assert(strs(sorted@).to_multiset().count(sorted@[x]@) > 0);
            assert(strs(keys_v).contains(sorted@[x]@));
            let w = choose|w: int| 0 <= w < keys_v.len() && strs(keys_v)[w] == sorted@[x]@;
        }
        assert forall|k: Seq<char>| contra_key(cl, k) implies exists|x: int| 0 <= x < cs@.len() && (#[trigger] cs@[x]).positive@ == k by {
            let w = choose|w: int| 0 <= w < cl.len() && !cl[w].negative && crate::symbolic_parse::atom_canon(#[trigger] cl[w].atom) == k;
            assert(strs(keys_v).contains(k));
            assert(strs(keys_v).to_multiset().count(k) > 0);
            assert(strs(sorted@).contains(k));
            let x = choose|x: int| 0 <= x < sorted@.len() && strs(sorted@)[x] == k;
            assert(cs@[x].positive@ == k);
        }
    }
    cs
}

/// The support edges of an evaluation: a derived fact leads to the
/// antecedents of the rule that derived it; a seed leads nowhere.
pub open spec fn support_edges(p: CompiledSymbolicProgram, by: Seq<int>) -> Seq<Seq<usize>> {
    Seq::new(by.len(), |i: int| if by[i] >= 0 { p.rule_ants(by[i]) } else { Seq::empty() })
}

/// The literals among the first `k` positions reachable from `s`, in position order.
pub open spec fn reached(g: Seq<Seq<usize>>, s: int, syms: Seq<LiteralView>, k: int) -> Seq<LiteralView>
    decreases k,
{
    if k <= 0 {
        Seq::empty()
    } else if reachable(g, s, k - 1) {
        reached(g, s, syms, k - 1).push(syms[k - 1])
    } else {
        reached(g, s, syms, k - 1)
    }
}

/// The support node of position `i`.
pub open spec fn node_of(p: CompiledSymbolicProgram, syms: Seq<LiteralView>, by: Seq<int>, i: int) -> SupportNodeView {
    if by[i] >= 0 {
        SupportNodeView {
            fact: crate::symbolic_parse::literal_canon(syms[i]),
            derived: true,
            rule_id: Some(p.rule_id(by[i])),
            supports: p.rule_ants(by[i]).map_values(|a: usize| crate::symbolic_parse::literal_canon(syms[a as int])),
        }
    } else {
        SupportNodeView {
            fact: crate::symbolic_parse::literal_canon(syms[i]),
            derived: false,
            rule_id: None,
            supports: Seq::empty(),
        }
    }
}

pub open spec fn nodes_view(v: Seq<ReasoningSupportNode>) -> Seq<SupportNodeView> {
    v.map_values(|n: ReasoningSupportNode| n@)
}

/// The derivation record as flags: the deriving rule of each closure fact that is no seed.
pub open spec fn derived_record(in_c: Seq<bool>, seed: Seq<bool>, via: Seq<usize>) -> Seq<int> {
    Seq::new(in_c.len(), |i: int| if in_c[i] && !seed[i] { via[i] as int } else { -1int })
}

/// The canonical texts of the facts reachable from `qid` over the support edges, sorted.
#[verifier::loop_isolation(false)]
fn query_support_texts(
    p: &CompiledSymbolicProgram,
    syms: &Vec<SymbolicLiteral>,
    in_c: &Vec<bool>,
    seed: &Vec<bool>,
    rule_of: &Vec<usize>,
    qid: usize,
) -> (r: Vec<String>)
    requires
        p.wf(),
        qid < syms@.len(),
        p.syms().len() <= syms@.len(),
        in_c@.len() == syms@.len(),
        seed@.len() == syms@.len(),
        rule_of@.len() == syms@.len(),
        forall|i: int| 0 <= i < syms@.len() && in_c@[i] && !seed@[i] ==> rule_of@[i] < p.rule_count(),
    ensures
        crate::order::sorted_keys(r@),
        strs(r@).to_multiset() == canon_texts(
            reached(
                support_edges(*p, derived_record(in_c@, seed@, rule_of@)),
                qid as int,
                lits_view(syms@),
                syms@.len() as int,
            ),
        ).to_multiset(),
{
    proof {
        p.lemma_wf();
    }
    let ghost by = derived_record(in_c@, seed@, rule_of@);
    let ghost g = support_edges(*p, by);
    let n = syms.len();
    let mut adj: Vec<Vec<usize>> = Vec::new();
    let mut i: usize = 0;
    while i < n
        invariant
            i <= n,
            adj@.len() == i,
            forall|k: int| 0 <= k < i ==> (#[trigger] adj@[k])@ == g[k],
        decreases n - i,
    {
        let mut row: Vec<usize> = Vec::new();
        if in_c[i] && !seed[i] {
            let ants = p.rule_antecedents_at(rule_of[i]);
            let mut j: usize = 0;
            while j < ants.len()
                invariant
                    j <= ants@.len(),
                    row@ == ants@.subrange(0, j as int),
                decreases ants@.len() - j,
            {
                row.push(ants[j]);
                j = j + 1;
                assert(row@ =~= ants@.subrange(0, j as int));
            }
            assert(ants@.subrange(0, ants@.len() as int) =~= ants@);
        } else {
            assert(row@ =~= Seq::<usize>::empty());
        }
        adj.push(row);
        i = i + 1;
    }
    proof {
        assert(adj@.map_values(|a: Vec<usize>| a@) =~= g);
        assert forall|u: int, k: int| 0 <= u < adj@.len() && 0 <= k < adj@[u]@.len() implies (#[trigger] adj@[u]@[k]) < adj@.len() by {
            assert(adj@[u]@ == g[u]);
            assert(by[u] >= 0);
            assert(p.rule_ants(by[u])[k] < p.syms().len());
        }
    }
    let vis = reachable_set(&adj, qid);
    let mut unsorted: Vec<String> = Vec::new();
    let mut k: usize = 0;
    while k < n
        invariant
            k <= n,
            vis@.len() == n,
            strs(unsorted@) == canon_texts(reached(g, qid as int, lits_view(syms@), k as int)),
        decreases n - k,
    {
        let ghost ub = strs(unsorted@);
        if vis[k] {
            let c = syms[k].canonical_string();
            unsorted.push(c);
            proof {
                assert(syms@[k as int]@ == lits_view(syms@)[k as int]);
                assert(strs(unsorted@) =~= ub.push(c@));
                assert(canon_texts(reached(g, qid as int, lits_view(syms@), k as int + 1)) =~= canon_texts(reached(g, qid as int, lits_view(syms@), k as int)).push(c@));
            }
        }
        k = k + 1;
    }
    let ghost uv = unsorted@;
    let sorted = crate::order::sort_by_keys_nonstrict(unsorted);
    proof {
        crate::order::lemma_multiset_map(sorted@, uv, |s: String| s@);
    }
    sorted
}

/// One support node per closure fact, sorted by fact.
#[verifier::loop_isolation(false)]
fn build_support_graph(
    p: &CompiledSymbolicProgram,
    syms: &Vec<SymbolicLiteral>,
    order: &Vec<usize>,
    in_c: &Vec<bool>,
    seed: &Vec<bool>,
    rule_of: &Vec<usize>,
) -> (r: Vec<ReasoningSupportNode>)
    requires
        p.wf(),
        p.syms().len() <= syms@.len(),
        in_c@.len() == syms@.len(),
        seed@.len() == syms@.len(),
        rule_of@.len() == syms@.len(),
        forall|k: int| 0 <= k < order@.len() ==> #[trigger] order@[k] < syms@.len(),
        forall|i: int| 0 <= i < syms@.len() && in_c@[i] && !seed@[i] ==> rule_of@[i] < p.rule_count(),
    ensures
        crate::order::sorted_keys(r@),
        nodes_view(r@).to_multiset() == order@.map_values(
            |i: usize| node_of(*p, lits_view(syms@), derived_record(in_c@, seed@, rule_of@), i as int),
        ).to_multiset(),
{
    proof {
        p.lemma_wf();
    }
    let ghost by = derived_record(in_c@, seed@, rule_of@);
    let ghost ls = lits_view(syms@);
    let mut nodes: Vec<ReasoningSupportNode> = Vec::new();
    let mut k: usize = 0;
    while k < order.len()
        invariant
            k <= order@.len(),
            nodes_view(nodes@) == order@.subrange(0, k as int).map_values(|i: usize| node_of(*p, ls, by, i as int)),
        decreases order@.len() - k,
    {
        let f = order[k];
        let fact = syms[f].canonical_string();
        proof {
            assert(syms@[f as int]@ == ls[f as int]);
        }
        let node = if in_c[f] && !seed[f] {
            let r = rule_of[f];
            let ants = p.rule_antecedents_at(r);
            let mut supports: Vec<String> = Vec::new();
            let mut j: usize = 0;
            while j < ants.len()
                invariant
                    j <= ants@.len(),
                    ants@ == p.rule_ants(r as int),
                    strs(supports@) == ants@.subrange(0, j as int).map_values(|a: usize| crate::symbolic_parse::literal_canon(ls[a as int])),
                decreases ants@.len() - j,
            {
                let c = syms[ants[j]].canonical_string();
                proof {
                    assert(syms@[ants@[j as int] as int]@ == ls[ants@[j as int] as int]);
                }
                let ghost sb = strs(supports@);
                supports.push(c);
                proof {
                    assert(strs(supports@) =~= sb.push(c@));
                    assert(ants@.subrange(0, j as int + 1).map_values(|a: usize| crate::symbolic_parse::literal_canon(ls[a as int])) =~= ants@.subrange(0, j as int).map_values(|a: usize| crate::symbolic_parse::literal_canon(ls[a as int])).push(c@));
                }
                j = j + 1;
            }
            assert(ants@.subrange(0, ants@.len() as int) =~= ants@);
            ReasoningSupportNode {
                fact,
                kind: ReasoningSupportKind::Derived,
                rule_id: Some(crate::text::copy_string(p.rule_id_at(r))),
                supports,
            }
        } else {
            let supports: Vec<String> = Vec::new();
            assert(strs(supports@) =~= Seq::<Seq<char>>::empty());
            ReasoningSupportNode { fact, kind: ReasoningSupportKind::Seed, rule_id: None, supports }
        };
        proof {
            assert(node@ == node_of(*p, ls, by, f as int));
        }
        let ghost nb = nodes_view(nodes@);
        nodes.push(node);
        proof {
            assert(nodes_view(nodes@) =~= nb.push(node_of(*p, ls, by, f as int)));
            assert(order@.subrange(0, k as int + 1).map_values(|i: usize| node_of(*p, ls, by, i as int)) =~= order@.subrange(0, k as int).map_values(|i: usize| node_of(*p, ls, by, i as int)).push(node_of(*p, ls, by, f as int)));
        }
        k = k + 1;
    }
    assert(order@.subrange(0, order@.len() as int) =~= order@);
    let ghost nv = nodes@;
    let sorted = crate::order::sort_by_keys_nonstrict(nodes);
    proof {
        crate::order::lemma_multiset_map(sorted@, nv, |n: ReasoningSupportNode| n@);
    }
    sorted
}

fn none_flags(n: usize) -> (v: Vec<usize>)
    ensures
        v@.len() == n,
{
    let mut v: Vec<usize> = Vec::new();
    let mut i: usize = 0;
    while i < n
        invariant
            i <= n,
            v@.len() == i,
        decreases n - i,
    {
        v.push(usize::MAX);
        i = i + 1;
    }
    v
}

/// Seeds the closure: the base facts, then each input fact, interning the
/// inputs into `syms`.
#[verifier::loop_isolation(false)]
#[verifier::rlimit(60)]
fn seed_state(
    p: &CompiledSymbolicProgram,
    syms: &mut Vec<SymbolicLiteral>,
    inputs: &Vec<SymbolicLiteral>,
    act: &Vec<bool>,
    qid: usize,
    Ghost(ql): Ghost<LiteralView>,
) -> (out: (Vec<bool>, Vec<bool>, Vec<usize>, Vec<usize>, Ghost<Seq<int>>))
    requires
        p.wf(),
        ext_ok(*p, lits_view(old(syms)@)),
        old(syms)@.len() <= p.syms().len() + 1,
        qid < old(syms)@.len(),
        lits_view(old(syms)@)[qid as int] == ql,
        act@.len() == p.rule_count(),
    ensures
        state_ok(*p, act@, seeds_of(*p, lits_view(inputs@)), lits_view(final(syms)@), out.0@, out.1@, out.2@, out.3@),
        qid < final(syms)@.len(),
        lits_view(final(syms)@)[qid as int] == ql,
        forall|j: int| 0 <= j < p.syms().len() && p.is_base(j) ==> out.0@[j],
        out.4@.len() == inputs@.len(),
        forall|t: int|
            0 <= t < inputs@.len() ==> 0 <= #[trigger] out.4@[t] < final(syms)@.len() && out.0@[out.4@[t]] && lits_view(final(syms)@)[out.4@[t]] == inputs@[t]@,
        forall|j: int| 0 <= j < out.3@.len() ==> out.1@[#[trigger] out.3@[j] as int],
{
    let ghost seeds = seeds_of(*p, lits_view(inputs@));
    let n0 = p.symbols().len();
    let n1 = syms.len();
    let mut in_c = false_flags(n1);
    let mut seed = false_flags(n1);
    let mut via = none_flags(n1);
    let mut order: Vec<usize> = Vec::new();
    let base = p.base_flags();
    proof {
        p.lemma_wf();
    }
    let mut i: usize = 0;
    while i < n0
        invariant
            i <= n0,
            n0 == p.syms().len(),
            n1 == syms@.len(),
            state_ok(*p, act@, seeds, lits_view(syms@), in_c@, seed@, via@, order@),
            forall|k: int| 0 <= k < i && p.is_base(k) ==> in_c@[k],
            forall|k: int| i <= k < n1 ==> !in_c@[k],
            forall|k: int| 0 <= k < order@.len() ==> seed@[#[trigger] order@[k] as int],
        decreases n0 - i,
    {
        if base[i] {
            let ghost ob = order@;
            let ghost ib = in_c@;
            in_c.set(i, true);
            seed.set(i, true);
            order.push(i);
            proof {
                let ls = lits_view(syms@);
                assert(!ob.contains(i));
                assert(ls[i as int] == p.syms()[i as int]);
                assert(p.is_base(i as int));
                assert(0 <= i < p.syms().len() && p.is_base(i as int) && p.syms()[i as int] == ls[i as int]);
                assert(seeds.contains(ls[i as int]));
                assert forall|k: int| 0 <= k < order@.len() implies #[trigger] justified(*p, act@, seed@, via@, order@, k) by {
                    assert(seed@[order@[k] as int]);
                }
                assert forall|k: int| 0 <= k < syms@.len() implies (#[trigger] in_c@[k] <==> order@.contains(k as usize)) by {
                    if k != i {
                        assert(in_c@[k] == ib[k]);
                        if order@.contains(k as usize) {
                            let w = choose|w: int| 0 <= w < order@.len() && order@[w] == k as usize;
                            if w < ob.len() {
                                assert(ob[w] == k as usize);
                            }
                        }
                        if ob.contains(k as usize) {
                            let w = choose|w: int| 0 <= w < ob.len() && ob[w] == k as usize;
                            assert(order@[w] == k as usize);
                        }
                    } else {
                        assert(order@[order@.len() - 1] == i);
                    }
                }
            }
        }
        i = i + 1;
    }
    let mut k: usize = 0;
    let ghost mut pos: Seq<int> = Seq::empty();
    while k < inputs.len()
        invariant
            k <= inputs@.len(),
            n0 == p.syms().len(),
            n0 <= syms@.len(),
            state_ok(*p, act@, seeds, lits_view(syms@), in_c@, seed@, via@, order@),
            forall|j: int| 0 <= j < n0 && p.is_base(j) ==> in_c@[j],
            pos.len() == k,
            forall|t: int|
                0 <= t < k ==> 0 <= #[trigger] pos[t] < syms@.len() && in_c@[pos[t]] && lits_view(syms@)[pos[t]] == inputs@[t]@,
            forall|j: int| 0 <= j < order@.len() ==> seed@[#[trigger] order@[j] as int],
            qid < syms@.len(),
            lits_view(syms@)[qid as int] == ql,
        decreases inputs@.len() - k,
    {
        let ghost sb = lits_view(syms@);
        let id = intern(syms, &inputs[k]);
        proof {
            lemma_intern_ext(*p, sb, lits_view(syms@), inputs@[k as int]@);
        }
        if syms.len() > in_c.len() {
            in_c.push(false);
            seed.push(false);
            via.push(usize::MAX);
        }
        proof {
            let ls = lits_view(syms@);
            assert(in_c@.len() == ls.len());
            assert forall|j: int| 0 <= j < order@.len() implies #[trigger] justified(*p, act@, seed@, via@, order@, j) by {
                assert(seed@[order@[j] as int]);
            }
            assert forall|j: int| 0 <= j < ls.len() && #[trigger] seed@[j] implies in_c@[j] && seeds.contains(ls[j]) by {
                assert(j < sb.len());
                assert(ls[j] == sb[j]);
            }
            assert forall|j: int| 0 <= j < ls.len() implies (#[trigger] in_c@[j] <==> order@.contains(j as usize)) by {
                if j >= sb.len() {
                    if order@.contains(j as usize) {
                        let w = choose|w: int| 0 <= w < order@.len() && order@[w] == j as usize;
                        assert(order@[w] < sb.len());
                    }
                }
            }
            assert(state_ok(*p, act@, seeds, ls, in_c@, seed@, via@, order@));
        }
        if !in_c[id] {
            let ghost ob = order@;
            let ghost ib = in_c@;
            in_c.set(id, true);
            seed.set(id, true);
            order.push(id);
            proof {
                let ls = lits_view(syms@);
                assert(!ob.contains(id));
                assert(seeds.contains(ls[id as int])) by {
                    assert(lits_view(inputs@)[k as int] == ls[id as int]);
                }
                assert forall|j: int| 0 <= j < order@.len() implies #[trigger] justified(*p, act@, seed@, via@, order@, j) by {
                    assert(seed@[order@[j] as int]);
                }
                assert forall|j: int| 0 <= j < ls.len() implies (#[trigger] in_c@[j] <==> order@.contains(j as usize)) by {
                    if j != id {
                        assert(in_c@[j] == ib[j]);
                        if order@.contains(j as usize) {
                            let w = choose|w: int| 0 <= w < order@.len() && order@[w] == j as usize;
                            if w < ob.len() {
                                assert(ob[w] == j as usize);
                            }
                        }
                        if ob.contains(j as usize) {
                            let w = choose|w: int| 0 <= w < ob.len() && ob[w] == j as usize;
                            assert(order@[w] == j as usize);
                        }
                    } else {
                        assert(order@[order@.len() - 1] == id);
                    }
                }
            }
        }
        proof {
            let ls = lits_view(syms@);
            assert(in_c@[id as int] && ls[id as int] == inputs@[k as int]@);
            let pb = pos;
            pos = pos.push(id as int);
            assert forall|t: int| 0 <= t < k + 1 implies 0 <= #[trigger] pos[t] < syms@.len() && in_c@[pos[t]] && ls[pos[t]] == inputs@[t]@ by {
                if t < k {
                    assert(pos[t] == pb[t]);
                }
            }
        }
        k = k + 1;
    }
    proof {
    }
    (in_c, seed, via, order, Ghost(pos))
}

/// The closure, read through the derivation order, is the set of marked literals.
proof fn lemma_closure_set(
    p: CompiledSymbolicProgram,
    act: Seq<bool>,
    seeds: Set<LiteralView>,
    syms: Seq<LiteralView>,
    in_c: Seq<bool>,
    seed: Seq<bool>,
    via: Seq<usize>,
    order: Seq<usize>,
)
    requires
        state_ok(p, act, seeds, syms, in_c, seed, via, order),
    ensures
        order.map_values(|i: usize| syms[i as int]).to_set() == lits_in(syms, in_c),
{
    let cl = order.map_values(|i: usize| syms[i as int]);
    let a = cl.to_set();
    let b = lits_in(syms, in_c);
    assert forall|l: LiteralView| a.contains(l) implies b.contains(l) by {
        let k = choose|k: int| 0 <= k < cl.len() && cl[k] == l;
        let i = order[k] as int;
        assert(order.contains(i as usize));
        assert(in_c[i]);
    }
    assert forall|l: LiteralView| b.contains(l) implies a.contains(l) by {
        let i = choose|i: int| 0 <= i < syms.len() && in_c[i] && syms[i] == l;
        assert(order.contains(i as usize));
        let k = choose|k: int| 0 <= k < order.len() && order[k] == i as usize;
        assert(cl[k] == l);
    }
    assert(a =~= b);
}

/// Builds the outputs of an evaluation from its final state.
#[verifier::loop_isolation(false)]
#[verifier::rlimit(100)]
fn finish(
    p: &CompiledSymbolicProgram,
    syms: &Vec<SymbolicLiteral>,
    in_c: &Vec<bool>,
    seed: &Vec<bool>,
    via: &Vec<usize>,
    order: &Vec<usize>,
    matched: Vec<String>,
    rounds: usize,
    pending: usize,
    qid: usize,
    act: &Vec<bool>,
    max_rounds: usize,
    scope: SymbolicEvaluationScope,
    Ghost(ql): Ghost<LiteralView>,
    Ghost(ins): Ghost<Seq<LiteralView>>,
    Ghost(o0): Ghost<int>,
) -> (ev: SymbolicEvaluation)
    requires
        p.wf(),
        act@ == active_rules(*p, ql, scope),
        state_ok(*p, act@, seeds_of(*p, ins), lits_view(syms@), in_c@, seed@, via@, order@),
        qid < syms@.len(),
        lits_view(syms@)[qid as int] == ql,
        forall|l: LiteralView| seeds_of(*p, ins).contains(l) ==> exists|j: int| 0 <= j < syms@.len() && in_c@[j] && lits_view(syms@)[j] == l,
        0 <= o0 <= order@.len(),
        order@.len() == o0 + matched@.len(),
        forall|j: int| 0 <= j < o0 ==> seed@[#[trigger] order@[j] as int],
        forall|t: int|
            0 <= t < matched@.len() ==> (#[trigger] matched@[t])@ == p.rule_id(
                via@[order@[o0 + t] as int] as int,
            ) && !seed@[order@[o0 + t] as int],
        rounds <= max_rounds,
        pending <= p.rule_count(),
        pending == 0 ==> forall|r: int| 0 <= r < p.rule_count() ==> !ready(*p, act@, in_c@, r),
        pending > 0 ==> rounds == max_rounds,
        lits_in(lits_view(syms@), in_c@) == iterate(*p, act@, seeds_of(*p, ins), rounds as nat),
        forall|j: int| 1 <= j < rounds ==> #[trigger] grew(*p, act@, seeds_of(*p, ins), j),
        tally(p.rule_count() as int, |r: int| ready_in(*p, act@, lits_in(lits_view(syms@), in_c@), r)) <= pending,
        pending <= tally(p.rule_count() as int, |r: int| may_pend(*p, act@, seeds_of(*p, ins), rounds as nat, r)),
        pending == tally(p.rule_count() as int, |r: int| pending_after(*p, act@, seeds_of(*p, ins), rounds as nat, r)),
    ensures
        closure_ok(*p, ql, ins, scope, max_rounds, ev),
        outputs_ok(*p, ql, ev),
{
    let ghost seeds = seeds_of(*p, ins);
    let ghost ls = lits_view(syms@);
    let mut unsorted: Vec<String> = Vec::new();
    let mut t: usize = 0;
    while t < order.len()
        invariant
            t <= order@.len(),
            state_ok(*p, act@, seeds, ls, in_c@, seed@, via@, order@),
            ls == lits_view(syms@),
            strs(unsorted@) == canon_texts(order@.subrange(0, t as int).map_values(|i: usize| ls[i as int])),
        decreases order@.len() - t,
    {
        let c = syms[order[t]].canonical_string();
        let ghost ub = strs(unsorted@);
        proof {
            assert(syms@[order@[t as int] as int]@ == ls[order@[t as int] as int]);
        }
        unsorted.push(c);
        proof {
            assert(strs(unsorted@) =~= ub.push(crate::symbolic_parse::literal_canon(ls[order@[t as int] as int])));
            assert(order@.subrange(0, t as int + 1).map_values(|i: usize| ls[i as int]) =~= order@.subrange(0, t as int).map_values(|i: usize| ls[i as int]).push(ls[order@[t as int] as int]));
            assert(strs(unsorted@) =~= canon_texts(order@.subrange(0, t as int + 1).map_values(|i: usize| ls[i as int])));
        }
        t = t + 1;
    }
    let ghost cl = order@.map_values(|i: usize| ls[i as int]);
    proof {
        assert(order@.subrange(0, order@.len() as int) =~= order@);
    }
    let ghost unsorted_v = unsorted@;
    let derived_facts = crate::order::sort_by_keys_nonstrict(unsorted);
    proof {
        crate::order::lemma_multiset_map(derived_facts@, unsorted_v, |s: String| s@);
    }
    let entailed = in_c[qid];
    let status = if pending == 0 { SymbolicClosureStatus::Saturated } else { SymbolicClosureStatus::Truncated };
    let ghost by = derived_record(in_c@, seed@, via@);
    proof {
        assert forall|i: int| 0 <= i < syms@.len() && in_c@[i] && !seed@[i] implies via@[i] < p.rule_count() by {
            let w = choose|w: int| 0 <= w < order@.len() && order@[w] == i as usize;
            assert(justified(*p, act@, seed@, via@, order@, w));
        }
    }
    let contradictions = detect_contradictions(&syms, &order);
    let query_support = if entailed {
        query_support_texts(p, &syms, &in_c, &seed, &via, qid)
    } else {
        Vec::new()
    };
    let support_graph = build_support_graph(p, &syms, &order, &in_c, &seed, &via);
    let ev = SymbolicEvaluation {
        derived_facts,
        matched_rules: matched,
        entailed,
        support_graph,
        contradictions,
        query_support,
        closure_status: status,
        rounds_executed: rounds,
        pending_rule_count: pending,
        symbols: Ghost(ls),
        order: Ghost(order@),
        derived_by: Ghost(by),
        query_id: Ghost(qid as int),
    };
    proof {
        p.lemma_wf();
        let act_s = active_rules(*p, ql, scope);
        assert(act@ == act_s);
        assert(closure_lits(ev) == cl);
        lemma_closure_set(*p, act@, seeds, ls, in_c@, seed@, via@, order@);
        assert(cl.to_set() == lits_in(ls, in_c@));
        // seeds are in the closure
        assert forall|l: LiteralView| seeds.contains(l) implies cl.contains(l) by {
            let j = choose|j: int| 0 <= j < syms@.len() && in_c@[j] && ls[j] == l;
            assert(in_c@[j] && ls[j] == l);
            assert(order@.contains(j as usize));
            let w = choose|w: int| 0 <= w < order@.len() && order@[w] == j as usize;
            assert(cl[w] == l);
        }
        // everything in the closure follows from the seeds
        assert forall|m: int| 0 <= m < cl.len() implies entailed_by(*p, act_s, seeds, #[trigger] cl[m]) by {
            assert forall|c: Set<LiteralView>| seeds.subset_of(c) && #[trigger] closed_under(*p, act_s, c) implies c.contains(cl[m]) by {
                lemma_sound_prefix(*p, act@, seeds, ls, in_c@, seed@, via@, order@, c, order@.len() as int);
                assert(c.contains(ls[order@[m] as int]));
            }
        }
        // a saturated closure is closed
        if pending == 0 {
            assert forall|r: int| 0 <= r < p.rule_count() && act_s[r] && #[trigger] fires_in(*p, r, cl.to_set()) implies cl.to_set().contains(cons_lit(*p, r)) by {
                assert forall|j: int| 0 <= j < p.rule_ants(r).len() implies in_c@[#[trigger] p.rule_ants(r)[j] as int] by {
                    let a = p.rule_ants(r)[j] as int;
                    assert(cl.to_set().contains(ant_lit(*p, r, j)));
                    assert(cl.contains(ant_lit(*p, r, j)));
                    let w = choose|w: int| 0 <= w < cl.len() && cl[w] == ant_lit(*p, r, j);
                    assert(ls[order@[w] as int] == ls[a]);
                    assert(order@[w] as int == a);
                }
                assert(!ready(*p, act@, in_c@, r));
                let cc = p.rule_cons(r) as int;
                assert(in_c@[cc]);
                assert(order@.contains(cc as usize));
                let w = choose|w: int| 0 <= w < order@.len() && order@[w] == cc as usize;
                assert(cl[w] == cons_lit(*p, r));
            }
        }
        // entailment of the query
        if in_c@[qid as int] {
            let w = choose|w: int| 0 <= w < order@.len() && order@[w] == qid;
            assert(cl[w] == ql);
        }
        if cl.contains(ql) {
            let w = choose|w: int| 0 <= w < cl.len() && cl[w] == ql;
            assert(ls[order@[w] as int] == ls[qid as int]);
            assert(order@[w] == qid);
        }
        // the derivation record
        assert forall|m: int| 0 <= m < o0 implies by[#[trigger] order@[m] as int] < 0 && seeds.contains(ls[order@[m] as int]) by {
            assert(seed@[order@[m] as int]);
        }
        assert forall|i: int| 0 <= i < ls.len() && #[trigger] by[i] >= 0 implies {
            &&& order@.contains(i as usize)
            &&& by[i] < p.rule_count()
            &&& act_s[by[i]]
            &&& p.rule_cons(by[i]) == i
            &&& forall|j: int| 0 <= j < p.rule_ants(by[i]).len() ==> order@.contains(#[trigger] p.rule_ants(by[i])[j])
        } by {
            assert(in_c@[i] && !seed@[i]);
            let w = choose|w: int| 0 <= w < order@.len() && order@[w] == i as usize;
            assert(justified(*p, act@, seed@, via@, order@, w));
            assert forall|j: int| 0 <= j < p.rule_ants(by[i]).len() implies order@.contains(#[trigger] p.rule_ants(by[i])[j]) by {
                assert(order@.subrange(0, w).contains(p.rule_ants(by[i])[j]));
                let x = choose|x: int| 0 <= x < w && order@.subrange(0, w)[x] == p.rule_ants(by[i])[j];
                assert(order@[x] == p.rule_ants(by[i])[j]);
            }
        }
        assert forall|t: int| 0 <= t < matched@.len() implies by[order@[o0 + t] as int] >= 0
            && (#[trigger] matched@[t])@ == p.rule_id(by[order@[o0 + t] as int]) by {
            let f = order@[o0 + t] as int;
            assert(matched@[t]@ == p.rule_id(via@[order@[o0 + t] as int] as int));
            assert(order@.contains(order@[o0 + t]));
            assert(f < syms@.len());
            assert(in_c@[f]);
            assert(!seed@[f]);
        }
        assert forall|k: int| 0 <= k < order@.len() && by[#[trigger] order@[k] as int] >= 0 implies derived_after(*p, order@, by, k) by {
            let i = order@[k] as int;
            assert(justified(*p, act@, seed@, via@, order@, k));
            assert(in_c@[i] && !seed@[i]);
        }
        let fd = ev.order@.len() - ev.matched_rules@.len();
        assert(fd == o0);
        assert forall|t: int| 0 <= t < ev.matched_rules@.len() implies #[trigger] matched_at(*p, ev, t) by {
            assert(matched@[t] == ev.matched_rules@[t]);
            assert(by[order@[o0 + t] as int] >= 0 && (matched@[t])@ == p.rule_id(by[order@[o0 + t] as int]));
        }
    }
    ev
}

/// Evaluates `query` against the program and the input `facts`: parses the
/// query, then the facts (the first failure wins), seeds the closure with the
/// base facts and the inputs, and runs at most `max_rounds` rounds of forward
/// chaining over the rules that the scope makes active.
#[verifier::loop_isolation(false)]
#[verifier::rlimit(60)]
pub fn evaluate(
    p: &CompiledSymbolicProgram,
    query: &str,
    facts: &Vec<String>,
    max_rounds: usize,
    scope: SymbolicEvaluationScope,
) -> (r: Result<SymbolicEvaluation, HelixError>)
    requires
        p.wf(),
        p.syms().len() + p.rule_count() + facts@.len() + 2 <= usize::MAX,
    ensures
        match fact_parse(query@, "reasoning.query"@, "query"@) {
            Err(e) => r matches Err(x) && x@ == e,
            Ok(q) => match facts_parse(strs(facts@), "reasoning.facts"@, "fact entries"@) {
                Err(e) => r matches Err(x) && x@ == e,
                Ok(ins) => r matches Ok(ev) && closure_ok(*p, q, ins, scope, max_rounds, ev) && outputs_ok(
                    *p,
                    q,
                    ev,
                ),
            },
        },
{
    let ql = match parse_fact(query, "reasoning.query", "query") {
        Ok(l) => l,
        Err(e) => {
            return Err(e);
        },
    };
    let inputs = match parse_fact_list(facts, "reasoning.facts", "fact entries") {
        Ok(v) => v,
        Err(e) => {
            return Err(e);
        },
    };
    let ghost seeds = seeds_of(*p, lits_view(inputs@));
    proof {
        p.lemma_wf();
    }
    let mut syms = clone_symbols(p);
    let n0 = syms.len();
    let qid = intern(&mut syms, &ql);
    proof {
        lemma_intern_ext(*p, p.syms(), lits_view(syms@), ql@);
        if p.syms().contains(ql@) {
            let w = choose|i: int| 0 <= i < p.syms().len() && p.syms()[i] == ql@;
            assert(lits_view(syms@)[qid as int] == ql@);
            assert(lits_view(syms@)[w] == ql@);
            assert(w == qid);
        } else {
            assert(lits_view(syms@)[qid as int] == ql@);
            assert(lits_view(syms@)[n0 as int] == ql@);
        }
        assert(qid as int == lit_node(*p, ql@));
    }
    let act = compute_active(p, qid, scope, Ghost(ql@));
    let ghost inputs_v = lits_view(inputs@);
    let (in_c, seed, via, order, pos) = seed_state(p, &mut syms, &inputs, &act, qid, Ghost(ql@));
    let mut in_c = in_c;
    let mut via = via;
    let mut order = order;
    let ghost o0 = order@.len() as int;
    let ghost ls = lits_view(syms@);
    proof {
        assert forall|l: LiteralView| seeds.contains(l) implies exists|j: int| 0 <= j < syms@.len() && in_c@[j] && ls[j] == l by {
            if exists|j: int| 0 <= j < p.syms().len() && p.is_base(j) && p.syms()[j] == l {
                let j = choose|j: int| 0 <= j < p.syms().len() && p.is_base(j) && p.syms()[j] == l;
                assert(ls[j] == l);
            } else {
                let t = choose|t: int| 0 <= t < inputs@.len() && lits_view(inputs@)[t] == l;
                assert(inputs@[t]@ == l);
                let j = pos@[t];
                assert(0 <= j < syms@.len() && in_c@[j] && ls[j] == l);
            }
        }
    }
    let mut matched: Vec<String> = Vec::new();
    let ghost in_before = in_c@;
    proof {
        assert forall|l: LiteralView| lits_in(ls, in_before).contains(l) implies seeds.contains(l) by {
            let i = choose|i: int| 0 <= i < ls.len() && in_before[i] && ls[i] == l;
            assert(order@.contains(i as usize));
            let k = choose|k: int| 0 <= k < order@.len() && order@[k] == i as usize;
            assert(seed@[order@[k] as int]);
        }
        assert forall|l: LiteralView| seeds.contains(l) implies lits_in(ls, in_before).contains(l) by {
            let j = choose|j: int| 0 <= j < syms@.len() && in_c@[j] && ls[j] == l;
            assert(in_before[j]);
        }
        assert(lits_in(ls, in_before) =~= seeds);
    }
    let (rounds, pending) = run_rounds(p, &act, &mut in_c, &seed, &mut via, &mut matched, max_rounds, &mut order, Ghost(seeds), Ghost(ls));
    proof {
        assert forall|l: LiteralView| seeds.contains(l) implies exists|j: int| 0 <= j < syms@.len() && in_c@[j] && ls[j] == l by {
            let j = choose|j: int| 0 <= j < syms@.len() && in_before[j] && ls[j] == l;
            assert(in_c@[j]);
        }
    }
    let ev = finish(p, &syms, &in_c, &seed, &via, &order, matched, rounds, pending, qid, &act, max_rounds, scope, Ghost(ql@), Ghost(inputs_v), Ghost(o0));
    Ok(ev)
}

} // verus!
