//! Reachability over a finite directed graph given by adjacency lists.

use vstd::prelude::*;

verus! {

/// Nodes reachable from `s` in at most `n` steps.
pub open spec fn reach_within(adj: Seq<Seq<usize>>, s: int, n: nat) -> Set<int>
    decreases n,
{
    if n == 0 {
        set![s]
    } else {
        let prev = reach_within(adj, s, (n - 1) as nat);
        prev.union(
            Set::new(
                |v: int|
                    exists|u: int, k: int|
                        prev.contains(u) && 0 <= u < adj.len() && 0 <= k < adj[u].len() && (
                        #[trigger] adj[u][k]) as int == v,
            ),
        )
    }
}

/// `v` is reachable from `s`.
pub open spec fn reachable(adj: Seq<Seq<usize>>, s: int, v: int) -> bool {
    exists|n: nat| #[trigger] reach_within(adj, s, n).contains(v)
}

pub proof fn lemma_reach_step(adj: Seq<Seq<usize>>, s: int, u: int, k: int, v: int)
    requires
        reachable(adj, s, u),
        0 <= u < adj.len(),
        0 <= k < adj[u].len(),
        adj[u][k] as int == v,
    ensures
        reachable(adj, s, v),
{
    let n = choose|n: nat| #[trigger] reach_within(adj, s, n).contains(u);
    assert(reach_within(adj, s, n + 1).contains(v));
}

proof fn lemma_closed_contains_reach(adj: Seq<Seq<usize>>, s: int, vis: Seq<bool>, n: nat)
    requires
        0 <= s < vis.len(),
        vis[s],
        adj.len() == vis.len(),
        forall|u: int, k: int|
            0 <= u < vis.len() && vis[u] && 0 <= k < adj[u].len() ==> (#[trigger] adj[u][k])
                < vis.len() && vis[adj[u][k] as int],
    ensures
        forall|v: int| #[trigger] reach_within(adj, s, n).contains(v) ==> 0 <= v < vis.len() && vis[v],
    decreases n,
{
    if n > 0 {
        lemma_closed_contains_reach(adj, s, vis, (n - 1) as nat);
        let prev = reach_within(adj, s, (n - 1) as nat);
        assert forall|v: int| #[trigger] reach_within(adj, s, n).contains(v) implies 0 <= v < vis.len()
            && vis[v] by {
            if !prev.contains(v) {
                let (u, k) = choose|u: int, k: int|
                    prev.contains(u) && 0 <= u < adj.len() && 0 <= k < adj[u].len() && (
                    #[trigger] adj[u][k]) as int == v;
                assert(adj[u][k] < vis.len());
                assert(vis[adj[u][k] as int]);
            }
        }
    }
}

/// Marks every node reachable from `start`.
pub fn reachable_set(adj: &Vec<Vec<usize>>, start: usize) -> (vis: Vec<bool>)
    requires
        start < adj@.len(),
        forall|u: int, k: int|
            0 <= u < adj@.len() && 0 <= k < adj@[u]@.len() ==> (#[trigger] adj@[u]@[k]) < adj@.len(),
    ensures
        vis@.len() == adj@.len(),
        forall|v: int|
            0 <= v < adj@.len() ==> (vis@[v] <==> reachable(
                adj@.map_values(|a: Vec<usize>| a@),
                start as int,
                v,
            )),
{
    let ghost g = adj@.map_values(|a: Vec<usize>| a@);
    let n = adj.len();
    let mut vis: Vec<bool> = Vec::new();
    let mut i: usize = 0;
    while i < n
        invariant
            i <= n,
            n == adj@.len(),
            vis@.len() == i,
            forall|k: int| 0 <= k < i ==> !vis@[k],
        decreases n - i,
    {
        vis.push(false);
        i = i + 1;
    }
    vis.set(start, true);
    let ghost mut seen: Set<int> = set![start as int];
    let mut stack: Vec<usize> = Vec::new();
    stack.push(start);
    proof {
        assert(reach_within(g, start as int, 0).contains(start as int));
        vstd::set_lib::lemma_int_range(0, n as int);
        assert(seen.subset_of(vstd::set_lib::set_int_range(0, n as int)));
        vstd::set_lib::lemma_len_subset(seen, vstd::set_lib::set_int_range(0, n as int));
        assert(stack@[0] == start);
        assert(stack@.contains(start));
        assert forall|u: int| 0 <= u < n && vis@[u] implies u == start as int by {}
    }
    while stack.len() > 0
        invariant
            n == adj@.len(),
            g == adj@.map_values(|a: Vec<usize>| a@),
            g.len() == n,
            vis@.len() == n,
            start < n,
            vis@[start as int],
            forall|u: int, k: int|
                0 <= u < adj@.len() && 0 <= k < adj@[u]@.len() ==> (#[trigger] adj@[u]@[k])
                    < adj@.len(),
            forall|v: int| 0 <= v < n ==> (vis@[v] <==> #[trigger] seen.contains(v)),
            seen.subset_of(vstd::set_lib::set_int_range(0, n as int)),
            seen.finite(),
            seen.len() <= n,
            forall|k: int|
                0 <= k < stack@.len() ==> (#[trigger] stack@[k]) < n && vis@[stack@[k] as int],
            forall|v: int| 0 <= v < n && #[trigger] vis@[v] ==> reachable(g, start as int, v),
            forall|u: int, k: int|
                0 <= u < n && vis@[u] && !stack@.contains(u as usize) && 0 <= k < g[u].len()
                    ==> vis@[(#[trigger] g[u][k]) as int],
        decreases n - seen.len(), stack@.len(),
    {
        let ghost vis_before = vis@;
        let ghost stack_before = stack@;
        let ghost seen_before = seen;
        let u = stack.pop().unwrap();
        let ghost stack_after_pop = stack@;
        proof {
            assert(stack_before =~= stack_after_pop.push(u));
        }
        let succ = &adj[u];
        let mut k: usize = 0;
        while k < succ.len()
            invariant
                n == adj@.len(),
                g == adj@.map_values(|a: Vec<usize>| a@),
                g.len() == n,
                vis@.len() == n,
                u < n,
                *succ == adj@[u as int],
                k <= succ@.len(),
                start < n,
                vis@[start as int],
                vis_before[u as int],
                vis_before.len() == n,
                forall|u2: int, k2: int|
                    0 <= u2 < adj@.len() && 0 <= k2 < adj@[u2]@.len() ==> (#[trigger] adj@[u2]@[k2])
                        < adj@.len(),
                forall|v: int| 0 <= v < n ==> (vis@[v] <==> #[trigger] seen.contains(v)),
                seen.subset_of(vstd::set_lib::set_int_range(0, n as int)),
                seen.finite(),
                seen_before.finite(),
                seen_before.subset_of(seen),
                seen.len() - seen_before.len() == stack@.len() - stack_after_pop.len(),
                forall|j: int|
                    0 <= j < stack@.len() ==> (#[trigger] stack@[j]) < n && vis@[stack@[j] as int],
                forall|v: int| 0 <= v < n && #[trigger] vis@[v] ==> reachable(g, start as int, v),
                forall|j: int| 0 <= j < k ==> vis@[(#[trigger] succ@[j]) as int],
                forall|v: int| 0 <= v < n && vis_before[v] ==> vis@[v],
                forall|v: int|
                    0 <= v < n && vis@[v] && !vis_before[v] ==> stack@.contains(v as usize),
                stack@.len() >= stack_after_pop.len(),
                stack@.subrange(0, stack_after_pop.len() as int) == stack_after_pop,
            decreases succ@.len() - k,
        {
            let v = succ[k];
            if !vis[v] {
                proof {
                    assert(g[u as int] == succ@);
                    assert(g[u as int][k as int] == v);
                    lemma_reach_step(g, start as int, u as int, k as int, v as int);
                }
                let ghost sbefore = stack@;
                vis.set(v, true);
                stack.push(v);
                proof {
                    assert(!seen.contains(v as int));
                    seen = seen.insert(v as int);
                    assert(stack@[stack@.len() - 1] == v);
                    assert(stack@.subrange(0, stack_after_pop.len() as int) =~= sbefore.subrange(
                        0,
                        stack_after_pop.len() as int,
                    ));
                    assert forall|w: int|
                        0 <= w < n && vis@[w] && !vis_before[w] implies stack@.contains(
                        w as usize,
                    ) by {
                        if w == v as int {
                            assert(stack@[stack@.len() - 1] == w as usize);
                        } else {
                            let j = choose|j: int| 0 <= j < sbefore.len() && sbefore[j] == w as usize;
                            assert(stack@[j] == w as usize);
                        }
                    }
                }
            }
            k = k + 1;
        }
        proof {
            assert forall|u2: int, k2: int|
                0 <= u2 < n && vis@[u2] && !stack@.contains(u2 as usize) && 0 <= k2 < g[u2].len()
                    implies vis@[(#[trigger] g[u2][k2]) as int] by {
                if u2 == u as int {
                    assert(g[u2] == succ@);
                    assert(succ@[k2] == g[u2][k2]);
                } else if !vis_before[u2] {
                } else {
                    if stack_after_pop.contains(u2 as usize) {
                        let j = choose|j: int|
                            0 <= j < stack_after_pop.len() && stack_after_pop[j] == u2 as usize;
                        assert(stack@.subrange(0, stack_after_pop.len() as int)[j] == u2 as usize);
                        assert(stack@[j] == u2 as usize);
                    }
                    assert(!stack_before.contains(u2 as usize)) by {
                        if stack_before.contains(u2 as usize) {
                            let j = choose|j: int|
                                0 <= j < stack_before.len() && stack_before[j] == u2 as usize;
                            if j < stack_after_pop.len() {
                                assert(stack_after_pop[j] == u2 as usize);
                            }
                        }
                    }
                    assert(vis_before[g[u2][k2] as int]);
                }
            }
            vstd::set_lib::lemma_int_range(0, n as int);
            vstd::set_lib::lemma_len_subset(seen, vstd::set_lib::set_int_range(0, n as int));
        }
    }
    proof {
        assert forall|v: int| 0 <= v < adj@.len() implies (vis@[v] <==> reachable(
            g,
            start as int,
            v,
        )) by {
            if reachable(g, start as int, v) {
                let m = choose|m: nat| #[trigger] reach_within(g, start as int, m).contains(v);
                lemma_closed_contains_reach(g, start as int, vis@, m);
            }
        }
    }
    vis
}

} // verus!
