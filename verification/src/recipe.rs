//! Recipes: workflows connecting agents, and the validation of their
//! dependency graph.

use vstd::prelude::*;
use vstd::arithmetic::power::pow;
use crate::errors::{HelixError, HelixFault};
use crate::text::{push_str, trim, trim_str};

verus! {

/// How a recipe is triggered.
#[derive(Debug, Clone, PartialEq)]
pub enum Trigger {
    /// Triggered on a CRON schedule.
    Schedule {
        /// Standard CRON expression (e.g., "0 * * * * *").
        cron_expression: String,
    },
}

/// An agent of a recipe, as recipes configure it; ids are 128-bit UUIDs.
#[derive(Debug, Clone, PartialEq)]
pub struct AgentConfig {
    /// The agent's id.
    pub id: u128,
    /// The profile (tenant) the agent belongs to.
    pub profile_id: u128,
    /// Display name.
    pub name: Option<String>,
    /// The kind of agent (e.g. "source", "action").
    pub agent_kind: String,
    /// Path of the agent's WASM module, for WASM agents.
    pub wasm_module_path: Option<String>,
    /// Credentials the agent may use.
    pub credential_ids: Vec<u128>,
    /// Whether the agent is enabled.
    pub enabled: bool,
    /// The agents that must run before this one.
    pub dependencies: Vec<u128>,
}

/// The graph structure of a recipe: its agents, each naming its dependencies.
#[derive(Debug, Clone, PartialEq)]
pub struct RecipeGraphDefinition {
    /// The agents included in this recipe.
    pub agents: Vec<AgentConfig>,
}

/// A workflow definition connecting several agents.
#[derive(Debug, Clone, PartialEq)]
pub struct Recipe {
    /// Unique identifier for the recipe.
    pub id: u128,
    /// The profile (tenant) this recipe belongs to.
    pub profile_id: u128,
    /// User-defined name.
    pub name: String,
    /// Optional description of the recipe's purpose.
    pub description: Option<String>,
    /// How the recipe is triggered.
    pub trigger: Option<Trigger>,
    /// The agent graph.
    pub graph: RecipeGraphDefinition,
    /// Whether the recipe is active.
    pub enabled: bool,
}

/// The lowercase hexadecimal digit for `d < 16`.
pub open spec fn hex_char(d: int) -> char {
    if d < 10 {
        (d + 48) as char
    } else {
        (d + 87) as char
    }
}

/// The `j`-th of the 32 hexadecimal digits of `id`, most significant first.
pub open spec fn uuid_digit(id: u128, j: int) -> char {
    hex_char((id as int / pow(16, (31 - j) as nat)) % 16)
}

/// The hyphenated lowercase form of a UUID (8-4-4-4-12 hexadecimal digits).
pub open spec fn uuid_hyphenated(id: u128) -> Seq<char> {
    Seq::new(
        36,
        |p: int|
            if p == 8 || p == 13 || p == 18 || p == 23 {
                '-'
            } else {
                uuid_digit(
                    id,
                    p - if p < 8 {
                        0int
                    } else if p < 13 {
                        1int
                    } else if p < 18 {
                        2int
                    } else if p < 23 {
                        3int
                    } else {
                        4int
                    },
                )
            },
    )
}

/// The text of a UUID.
///
/// Trusted: `uuid::Uuid::from_u128(id).to_string()`, which uuid formats in
/// the hyphenated lowercase form of the id's big-endian bytes.
#[verifier::external_body]
fn uuid_text(id: u128) -> (s: String)
    ensures
        s@ == uuid_hyphenated(id),
{
    uuid::Uuid::from_u128(id).to_string()
}

/// Whether agent `i` depends on agent `k`.
pub open spec fn depends_on(agents: Seq<AgentConfig>, i: int, k: int) -> bool {
    agents[i].dependencies@.contains(agents[k].id)
}

/// Whether `rank` places every agent after the agents it depends on.
pub open spec fn ranked_by(agents: Seq<AgentConfig>, rank: Seq<nat>) -> bool {
    &&& rank.len() == agents.len()
    &&& forall|i: int, k: int|
        0 <= i < agents.len() && 0 <= k < agents.len() && #[trigger] depends_on(agents, i, k) ==> rank[k]
            < rank[i]
}

/// The dependency graph has no cycle: the agents can be ranked so that each
/// comes after what it depends on.
pub open spec fn acyclic(agents: Seq<AgentConfig>) -> bool {
    exists|rank: Seq<nat>| ranked_by(agents, rank)
}

/// The ids of the agents, in order.
pub open spec fn ids_of(agents: Seq<AgentConfig>) -> Seq<u128> {
    agents.map_values(|a: AgentConfig| a.id)
}

/// No two agents share an id.
pub open spec fn distinct_ids(agents: Seq<AgentConfig>) -> bool {
    forall|i: int, j: int| 0 <= i < j < agents.len() ==> agents[i].id != agents[j].id
}

/// The context of an error about an agent's dependencies.
pub open spec fn dep_context(id: u128) -> Seq<char> {
    "Recipe.graph.agents[id="@ + uuid_hyphenated(id) + "].dependencies"@
}

/// The first fault among the dependencies of `a` from position `j`: a
/// dependency on an agent not in the recipe, or on the agent itself.
pub open spec fn dep_fault(a: AgentConfig, ids: Seq<u128>, j: int) -> Option<HelixFault>
    decreases a.dependencies@.len() - j,
{
    if j < 0 || j >= a.dependencies@.len() {
        None
    } else {
        let d = a.dependencies@[j];
        if !ids.contains(d) {
            Some(
                HelixFault::Validation(
                    dep_context(a.id),
                    "Dependency on non-existent agent ID: "@ + uuid_hyphenated(d),
                ),
            )
        } else if d == a.id {
            Some(
                HelixFault::Validation(
                    dep_context(a.id),
                    "Agent "@ + uuid_hyphenated(a.id) + " cannot depend on itself."@,
                ),
            )
        } else {
            dep_fault(a, ids, j + 1)
        }
    }
}

/// The first dependency fault of the agents from position `i`.
pub open spec fn agents_fault(agents: Seq<AgentConfig>, ids: Seq<u128>, i: int) -> Option<HelixFault>
    decreases agents.len() - i,
{
    if i < 0 || i >= agents.len() {
        None
    } else {
        match dep_fault(agents[i], ids, 0) {
            Some(f) => Some(f),
            None => agents_fault(agents, ids, i + 1),
        }
    }
}

/// The first rule a recipe breaks, in the order `validate` checks them: a
/// blank name, no agents, duplicate agent ids, a dependency on a missing
/// agent or on itself, a cycle.
pub open spec fn recipe_fault(r: Recipe) -> Option<HelixFault> {
    let agents = r.graph.agents@;
    if trim(r.name@).len() == 0 {
        Some(HelixFault::Validation("Recipe.name"@, "Recipe name cannot be empty"@))
    } else if agents.len() == 0 {
        Some(HelixFault::Validation("Recipe.graph.agents"@, "Recipe must contain at least one agent"@))
    } else if !distinct_ids(agents) {
        Some(HelixFault::Validation("Recipe.graph.agents"@, "Recipe contains duplicate agent IDs"@))
    } else if agents_fault(agents, ids_of(agents), 0) is Some {
        agents_fault(agents, ids_of(agents), 0)
    } else if !acyclic(agents) {
        Some(HelixFault::Validation("Recipe.graph"@, "Recipe graph contains cycles (not a valid DAG)"@))
    } else {
        None
    }
}

/// No rank function survives a set of agents each of which depends on
/// another agent of the set.
proof fn lemma_no_rank_for_closed_set(agents: Seq<AgentConfig>, rank: Seq<nat>, left: Seq<bool>, i0: int)
    requires
        left.len() == agents.len(),
        0 <= i0 < agents.len(),
        left[i0],
        forall|i: int|
            0 <= i < agents.len() && #[trigger] left[i] ==> exists|k: int|
                0 <= k < agents.len() && left[k] && #[trigger] depends_on(agents, i, k),
    ensures
        !ranked_by(agents, rank),
{
    if ranked_by(agents, rank) {
        let r0 = rank[i0];
        lemma_rank_floor(agents, rank, left, r0 + 1);
        assert(rank[i0] >= r0 + 1);
    }
}

proof fn lemma_rank_floor(agents: Seq<AgentConfig>, rank: Seq<nat>, left: Seq<bool>, v: nat)
    requires
        ranked_by(agents, rank),
        left.len() == agents.len(),
        forall|i: int|
            0 <= i < agents.len() && #[trigger] left[i] ==> exists|k: int|
                0 <= k < agents.len() && left[k] && #[trigger] depends_on(agents, i, k),
    ensures
        forall|i: int| 0 <= i < agents.len() && #[trigger] left[i] ==> rank[i] >= v,
    decreases v,
{
    if v > 0 {
        lemma_rank_floor(agents, rank, left, (v - 1) as nat);
        assert forall|i: int| 0 <= i < agents.len() && #[trigger] left[i] implies rank[i] >= v by {
            let k = choose|k: int| 0 <= k < agents.len() && left[k] && #[trigger] depends_on(agents, i, k);
            assert(rank[k] < rank[i]);
            assert(rank[k] >= v - 1);
        }
    }
}

/// The position of the agent with id `d`, when `d` is an agent id.
fn index_of_id(agents: &Vec<AgentConfig>, d: u128) -> (r: Option<usize>)
    ensures
        match r {
            Some(k) => k < agents@.len() && agents@[k as int].id == d && forall|j: int|
                0 <= j < k ==> #[trigger] agents@[j].id != d,
            None => !ids_of(agents@).contains(d),
        },
{
    let mut k: usize = 0;
    while k < agents.len()
        invariant
            k <= agents@.len(),
            forall|j: int| 0 <= j < k ==> agents@[j].id != d,
        decreases agents@.len() - k,
    {
        if agents[k].id == d {
            return Some(k);
        }
        k = k + 1;
    }
    assert forall|j: int| 0 <= j < ids_of(agents@).len() implies ids_of(agents@)[j] != d by {
        assert(ids_of(agents@)[j] == agents@[j].id);
    }
    None
}

/// Whether every dependency of agent `i` is done.
fn deps_done(agents: &Vec<AgentConfig>, i: usize, done: &Vec<bool>) -> (b: bool)
    requires
        i < agents@.len(),
        done@.len() == agents@.len(),
        deps_resolvable(agents@),
    ensures
        b == (forall|k: int| 0 <= k < agents@.len() && #[trigger] depends_on(agents@, i as int, k) ==> done@[k]),
{
    let deps = &agents[i].dependencies;
    let mut j: usize = 0;
    while j < deps.len()
        invariant
            i < agents@.len(),
            done@.len() == agents@.len(),
            distinct_ids(agents@),
            deps@ == agents@[i as int].dependencies@,
            j <= deps@.len(),
            deps_resolvable(agents@),
            forall|k: int|
                0 <= k < agents@.len() && deps@.subrange(0, j as int).contains(agents@[k].id) ==> done@[k],
        decreases deps@.len() - j,
    {
        let d = deps[j];
        match index_of_id(agents, d) {
            Some(k) => {
                if !done[k] {
                    assert(depends_on(agents@, i as int, k as int)) by {
                        assert(deps@[j as int] == agents@[k as int].id);
                    }
                    return false;
                }
                assert forall|k2: int|
                    0 <= k2 < agents@.len() && deps@.subrange(0, j + 1).contains(agents@[k2].id) implies done@[k2] by {
                    let m = choose|m: int| 0 <= m < j + 1 && #[trigger] deps@.subrange(0, j + 1)[m] == agents@[k2].id;
                    if m < j {
                        assert(deps@.subrange(0, j as int)[m] == agents@[k2].id);
                    } else {
                        assert(agents@[k2].id == agents@[k as int].id);
                        if k2 != k {
                            if k2 < k {
                                assert(agents@[k2].id != agents@[k as int].id);
                            } else {
                                assert(agents@[k as int].id != agents@[k2].id);
                            }
                        }
                    }
                }
            },
            None => {
                assert(ids_of(agents@).contains(agents@[i as int].dependencies@[j as int]));
            },
        }
        j = j + 1;
    }
    assert(deps@.subrange(0, deps@.len() as int) =~= deps@);
    true
}

/// Distinct ids, and every dependency names an agent of the recipe.
pub open spec fn deps_resolvable(agents: Seq<AgentConfig>) -> bool {
    &&& distinct_ids(agents)
    &&& forall|i: int, j: int|
        0 <= i < agents.len() && 0 <= j < agents[i].dependencies@.len() ==> ids_of(agents).contains(
            #[trigger] agents[i].dependencies@[j],
        )
}

/// The marks so far are consistent with a ranking: every marked agent has
/// a rank below `counter`, and what it depends on is marked with a lower rank.
pub open spec fn marks_ranked(agents: Seq<AgentConfig>, done: Seq<bool>, rank: Seq<nat>, counter: nat) -> bool {
    &&& done.len() == agents.len()
    &&& rank.len() == agents.len()
    &&& forall|i: int| 0 <= i < agents.len() && #[trigger] done[i] ==> rank[i] < counter
    &&& forall|i: int, k: int|
        0 <= i < agents.len() && 0 <= k < agents.len() && done[i] && #[trigger] depends_on(agents, i, k)
            ==> done[k] && rank[k] < rank[i]
}

/// Every unmarked agent depends on an unmarked agent.
pub open spec fn stuck(agents: Seq<AgentConfig>, done: Seq<bool>, upto: int) -> bool {
    forall|j: int|
        0 <= j < upto && !(#[trigger] done[j]) ==> exists|k: int|
            0 <= k < agents.len() && !done[k] && depends_on(agents, j, k)
}

/// One pass over the agents, marking each whose dependencies are all marked.
fn mark_ready(agents: &Vec<AgentConfig>, done: &mut Vec<bool>, counter: usize, rank: Ghost<Seq<nat>>) -> (r: (
    bool,
    usize,
    Ghost<Seq<nat>>,
))
    requires
        deps_resolvable(agents@),
        marks_ranked(agents@, old(done)@, rank@, counter as nat),
        counter == count_true(old(done)@),
    ensures
        marks_ranked(agents@, final(done)@, r.2@, r.1 as nat),
        r.1 == count_true(final(done)@),
        r.0 ==> r.1 > counter,
        !r.0 ==> final(done)@ == old(done)@ && stuck(agents@, final(done)@, agents@.len() as int),
{
    let n = agents.len();
    let ghost start = done@;
    let mut rank = rank;
    let mut counter = counter;
    let mut changed = false;
    let mut i: usize = 0;
    while i < n
        invariant
            n == agents@.len(),
            i <= n,
            deps_resolvable(agents@),
            marks_ranked(agents@, done@, rank@, counter as nat),
            counter == count_true(done@),
            counter >= count_true(start),
            start.len() == n,
            changed ==> counter > count_true(start),
            !changed ==> done@ == start && stuck(agents@, done@, i as int),
        decreases n - i,
    {
        if !done[i] {
            if deps_done(agents, i, &done) {
                let ghost before = done@;
                done.set(i, true);
                rank = Ghost(rank@.update(i as int, counter as nat));
                proof {
                    lemma_count_true_mark(before, i as int);
                    lemma_count_true_bound(done@);
                    assert forall|i2: int, k: int|
                        0 <= i2 < agents@.len() && 0 <= k < agents@.len() && done@[i2] && #[trigger] depends_on(
                            agents@,
                            i2,
                            k,
                        ) implies done@[k] && rank@[k] < rank@[i2] by {
                        if i2 != i {
                            assert(before[i2]);
                        }
                    }
                }
                counter = counter + 1;
                changed = true;
            }
        }
        i = i + 1;
    }
    (changed, counter, rank)
}

/// Whether the agents admit a ranking (see `acyclic`), for agents with
/// distinct ids whose dependencies all name agents of the recipe.
fn graph_is_acyclic(agents: &Vec<AgentConfig>) -> (b: bool)
    requires
        deps_resolvable(agents@),
    ensures
        b == acyclic(agents@),
{
    let n = agents.len();
    let mut done: Vec<bool> = Vec::new();
    let mut k: usize = 0;
    while k < n
        invariant
            n == agents@.len(),
            k <= n,
            done@.len() == k,
            count_true(done@) == 0,
            forall|j: int| 0 <= j < k ==> !done@[j],
        decreases n - k,
    {
        let ghost before = done@;
        done.push(false);
        assert(done@.drop_last() =~= before);
        k = k + 1;
    }
    let mut rank: Ghost<Seq<nat>> = Ghost(Seq::new(n as nat, |j: int| 0nat));
    let mut counter: usize = 0;
    let mut progress = true;
    proof {
        lemma_count_true_bound(done@);
    }
    while progress
        invariant
            n == agents@.len(),
            deps_resolvable(agents@),
            marks_ranked(agents@, done@, rank@, counter as nat),
            counter == count_true(done@),
            counter <= n,
            !progress ==> stuck(agents@, done@, n as int),
        decreases n - counter + if progress { 1int } else { 0int },
    {
        let (changed, c, r) = mark_ready(agents, &mut done, counter, rank);
        proof {
            lemma_count_true_bound(done@);
        }
        counter = c;
        rank = r;
        progress = changed;
    }
    if counter == n {
        proof {
            lemma_all_marked_ranked(agents@, done@, rank@, counter as nat);
        }
        true
    } else {
        proof {
            lemma_stuck_not_acyclic(agents@, done@);
        }
        false
    }
}

/// Marks covering every agent give a ranking.
proof fn lemma_all_marked_ranked(agents: Seq<AgentConfig>, done: Seq<bool>, rank: Seq<nat>, counter: nat)
    requires
        marks_ranked(agents, done, rank, counter),
        count_true(done) == agents.len(),
    ensures
        acyclic(agents),
{
    lemma_all_true(done);
    assert(ranked_by(agents, rank));
}

/// A count equal to the length marks every entry.
proof fn lemma_all_true(v: Seq<bool>)
    requires
        count_true(v) == v.len(),
    ensures
        forall|i: int| 0 <= i < v.len() ==> v[i],
    decreases v.len(),
{
    if v.len() > 0 {
        lemma_count_true_bound(v.drop_last());
        lemma_all_true(v.drop_last());
        assert forall|i: int| 0 <= i < v.len() implies v[i] by {
            if i < v.len() - 1 {
                assert(v.drop_last()[i] == v[i]);
            }
        }
    }
}

/// Stuck marks that leave an agent unmarked rule out every ranking.
proof fn lemma_stuck_not_acyclic(agents: Seq<AgentConfig>, done: Seq<bool>)
    requires
        done.len() == agents.len(),
        count_true(done) < agents.len(),
        stuck(agents, done, agents.len() as int),
    ensures
        !acyclic(agents),
{
    let n = agents.len();
    lemma_some_left(done);
    let i0 = choose|i0: int| 0 <= i0 < n && !done[i0];
    let left = Seq::new(n, |j: int| !done[j]);
    assert forall|i2: int| 0 <= i2 < agents.len() && #[trigger] left[i2] implies exists|k2: int|
        0 <= k2 < agents.len() && left[k2] && #[trigger] depends_on(agents, i2, k2) by {
        assert(!done[i2]);
        let k2 = choose|k2: int| 0 <= k2 < n && !done[k2] && depends_on(agents, i2, k2);
        assert(left[k2]);
    }
    assert forall|r: Seq<nat>| !ranked_by(agents, r) by {
        lemma_no_rank_for_closed_set(agents, r, left, i0);
    }
}

/// The number of `true` entries.
pub open spec fn count_true(v: Seq<bool>) -> nat
    decreases v.len(),
{
    if v.len() == 0 {
        0
    } else {
        count_true(v.drop_last()) + if v.last() { 1nat } else { 0nat }
    }
}

/// Marking one more entry adds one to the count.
proof fn lemma_count_true_mark(v: Seq<bool>, i: int)
    requires
        0 <= i < v.len(),
        !v[i],
    ensures
        count_true(v.update(i, true)) == count_true(v) + 1,
    decreases v.len(),
{
    let u = v.update(i, true);
    if i == v.len() - 1 {
        assert(u.drop_last() =~= v.drop_last());
    } else {
        assert(u.drop_last() =~= v.drop_last().update(i, true));
        lemma_count_true_mark(v.drop_last(), i);
    }
}

/// The count is at most the length.
proof fn lemma_count_true_bound(v: Seq<bool>)
    ensures
        count_true(v) <= v.len(),
    decreases v.len(),
{
    if v.len() > 0 {
        lemma_count_true_bound(v.drop_last());
    }
}

/// A count below the length leaves an entry unmarked.
proof fn lemma_some_left(v: Seq<bool>)
    requires
        count_true(v) < v.len(),
    ensures
        exists|i: int| 0 <= i < v.len() && !v[i],
    decreases v.len(),
{
    if v.last() {
        lemma_some_left(v.drop_last());
        let i = choose|i: int| 0 <= i < v.drop_last().len() && !v.drop_last()[i];
        assert(!v[i]);
    } else {
        assert(!v[v.len() - 1]);
    }
}

impl Recipe {
    /// Creates an enabled recipe without a trigger.
    pub fn new(id: u128, profile_id: u128, name: String, description: Option<String>, graph: RecipeGraphDefinition) -> (r:
        Self)
        ensures
            r == (Recipe { id, profile_id, name, description, trigger: None, graph, enabled: true }),
    {
        Recipe { id, profile_id, name, description, trigger: None, graph, enabled: true }
    }

    /// Updates the recipe name.
    pub fn update_name(&mut self, name: String)
        ensures
            *final(self) == (Recipe { name, ..*old(self) }),
    {
        self.name = name;
    }

    /// Updates the recipe description.
    pub fn update_description(&mut self, description: Option<String>)
        ensures
            *final(self) == (Recipe { description, ..*old(self) }),
    {
        self.description = description;
    }

    /// Sets or clears the trigger.
    pub fn set_trigger(&mut self, trigger: Option<Trigger>)
        ensures
            *final(self) == (Recipe { trigger, ..*old(self) }),
    {
        self.trigger = trigger;
    }

    /// Enables or disables the recipe.
    pub fn set_enabled(&mut self, enabled: bool)
        ensures
            *final(self) == (Recipe { enabled, ..*old(self) }),
    {
        self.enabled = enabled;
    }

    /// The number of agents in the recipe.
    pub fn agent_count(&self) -> (n: usize)
        ensures
            n == self.graph.agents@.len(),
    {
        self.graph.agents.len()
    }

    /// Whether the recipe has a trigger.
    pub fn has_trigger(&self) -> (b: bool)
        ensures
            b == self.trigger is Some,
    {
        self.trigger.is_some()
    }

    /// The ids of the agents, in order.
    pub fn agent_ids(&self) -> (v: Vec<u128>)
        ensures
            v@ == ids_of(self.graph.agents@),
    {
        let agents = &self.graph.agents;
        let mut v: Vec<u128> = Vec::new();
        let mut i: usize = 0;
        while i < agents.len()
            invariant
                i <= agents@.len(),
                v@ == ids_of(agents@).subrange(0, i as int),
            decreases agents@.len() - i,
        {
            v.push(agents[i].id);
            i = i + 1;
            assert(v@ =~= ids_of(agents@).subrange(0, i as int));
        }
        assert(ids_of(agents@).subrange(0, agents@.len() as int) =~= ids_of(agents@));
        v
    }

    /// The first agent with this id.
    pub fn find_agent(&self, agent_id: &u128) -> (r: Option<&AgentConfig>)
        ensures
            match r {
                Some(a) => exists|i: int|
                    0 <= i < self.graph.agents@.len() && self.graph.agents@[i] == *a && a.id == *agent_id && forall|
                        j: int,
                    |
                        0 <= j < i ==> #[trigger] self.graph.agents@[j].id != *agent_id,
                None => !ids_of(self.graph.agents@).contains(*agent_id),
            },
    {
        match index_of_id(&self.graph.agents, *agent_id) {
            Some(k) => Some(&self.graph.agents[k]),
            None => None,
        }
    }
}

/// Whether no two agents share an id.
fn all_ids_distinct(agents: &Vec<AgentConfig>) -> (b: bool)
    ensures
        b == distinct_ids(agents@),
{
    let n = agents.len();
    let mut i: usize = 0;
    while i < n
        invariant
            n == agents@.len(),
            i <= n,
            forall|a: int, b: int| 0 <= a < i && a < b < n ==> agents@[a].id != agents@[b].id,
        decreases n - i,
    {
        let mut j: usize = i + 1;
        while j < n
            invariant
                n == agents@.len(),
                i < n,
                i + 1 <= j <= n,
                forall|a: int, b: int| 0 <= a < i && a < b < n ==> agents@[a].id != agents@[b].id,
                forall|b: int| i < b < j ==> agents@[i as int].id != agents@[b].id,
            decreases n - j,
        {
            if agents[i].id == agents[j].id {
                return false;
            }
            j = j + 1;
        }
        i = i + 1;
    }
    true
}

/// The context text of an error about an agent's dependencies.
fn dependency_context(id: u128) -> (s: String)
    ensures
        s@ == dep_context(id),
{
    let mut s = String::from_str("Recipe.graph.agents[id=");
    let u = uuid_text(id);
    push_str(&mut s, u.as_str());
    push_str(&mut s, "].dependencies");
    s
}

/// The first dependency fault of the agents (see `agents_fault`); when there
/// is none, every dependency names an agent of the recipe.
fn first_dependency_fault(agents: &Vec<AgentConfig>) -> (r: Option<HelixError>)
    ensures
        match r {
            Some(e) => agents_fault(agents@, ids_of(agents@), 0) == Some(e@),
            None => {
                &&& agents_fault(agents@, ids_of(agents@), 0) is None
                &&& forall|i: int, j: int|
                    0 <= i < agents@.len() && 0 <= j < agents@[i].dependencies@.len() ==> ids_of(
                        agents@,
                    ).contains(#[trigger] agents@[i].dependencies@[j])
            },
        },
{
    let ghost ids = ids_of(agents@);
    let n = agents.len();
    let mut i: usize = 0;
    while i < n
        invariant
            n == agents@.len(),
            ids == ids_of(agents@),
            i <= n,
            agents_fault(agents@, ids, 0) == agents_fault(agents@, ids, i as int),
            forall|i2: int, j: int|
                0 <= i2 < i && 0 <= j < agents@[i2].dependencies@.len() ==> ids.contains(
                    #[trigger] agents@[i2].dependencies@[j],
                ),
        decreases n - i,
    {
        let a = &agents[i];
        let deps = &a.dependencies;
        let mut j: usize = 0;
        while j < deps.len()
            invariant
                n == agents@.len(),
                ids == ids_of(agents@),
                i < n,
                *a == agents@[i as int],
                deps@ == a.dependencies@,
                j <= deps@.len(),
                agents_fault(agents@, ids, 0) == agents_fault(agents@, ids, i as int),
                dep_fault(*a, ids, 0) == dep_fault(*a, ids, j as int),
                forall|j2: int| 0 <= j2 < j ==> ids.contains(#[trigger] deps@[j2]),
            decreases deps@.len() - j,
        {
            let d = deps[j];
            match index_of_id(agents, d) {
                None => {
                    let ctx = dependency_context(a.id);
                    let mut msg = String::from_str("Dependency on non-existent agent ID: ");
                    let u = uuid_text(d);
                    push_str(&mut msg, u.as_str());
                    let e = HelixError::ValidationError { context: ctx, message: msg };
                    assert(dep_fault(*a, ids, j as int) == Some(e@));
                    assert(agents_fault(agents@, ids, i as int) == Some(e@));
                    return Some(e);
                },
                Some(k) => {
                    assert(ids[k as int] == d);
                    if d == a.id {
                        let ctx = dependency_context(a.id);
                        let mut msg = String::from_str("Agent ");
                        let u = uuid_text(a.id);
                        push_str(&mut msg, u.as_str());
                        push_str(&mut msg, " cannot depend on itself.");
                        let e = HelixError::ValidationError { context: ctx, message: msg };
                        assert(dep_fault(*a, ids, j as int) == Some(e@));
                        assert(agents_fault(agents@, ids, i as int) == Some(e@));
                        return Some(e);
                    }
                },
            }
            j = j + 1;
        }
        assert(dep_fault(*a, ids, j as int) is None);
        i = i + 1;
    }
    None
}

impl Recipe {
    /// Validates the recipe: a non-blank name, at least one agent, distinct
    /// agent ids, dependencies only on other agents of the recipe, and no
    /// dependency cycle; the first rule broken is reported (see `recipe_fault`).
    pub fn validate(&self) -> (r: Result<(), HelixError>)
        ensures
            match r {
                Ok(()) => recipe_fault(*self) is None,
                Err(e) => recipe_fault(*self) == Some(e@),
            },
    {
        let name = trim_str(self.name.as_str());
        if name.unicode_len() == 0 {
            return Err(HelixError::validation_error("Recipe.name", "Recipe name cannot be empty"));
        }
        let agents = &self.graph.agents;
        if agents.len() == 0 {
            return Err(HelixError::validation_error("Recipe.graph.agents", "Recipe must contain at least one agent"));
        }
        if !all_ids_distinct(agents) {
            return Err(HelixError::validation_error("Recipe.graph.agents", "Recipe contains duplicate agent IDs"));
        }
        match first_dependency_fault(agents) {
            Some(e) => {
                return Err(e);
            },
            None => {},
        }
        if !graph_is_acyclic(agents) {
            return Err(
                HelixError::validation_error("Recipe.graph", "Recipe graph contains cycles (not a valid DAG)"),
            );
        }
        Ok(())
    }
}

/// Whether every dependency names another agent of the recipe.
pub open spec fn deps_name_other_agents(agents: Seq<AgentConfig>) -> bool {
    forall|i: int, j: int|
        0 <= i < agents.len() && 0 <= j < agents[i].dependencies@.len() ==> {
            let d = #[trigger] agents[i].dependencies@[j];
            ids_of(agents).contains(d) && d != agents[i].id
        }
}

/// The first fault from position `j` of an agent's dependencies is none
/// exactly when every dependency from there names another agent.
proof fn lemma_dep_fault_none(a: AgentConfig, ids: Seq<u128>, j: int)
    requires
        0 <= j <= a.dependencies@.len(),
        dep_fault(a, ids, j) is None,
    ensures
        forall|m: int| j <= m < a.dependencies@.len() ==> ids.contains(#[trigger] a.dependencies@[m])
            && a.dependencies@[m] != a.id,
    decreases a.dependencies@.len() - j,
{
    if j < a.dependencies@.len() {
        lemma_dep_fault_none(a, ids, j + 1);
    }
}

/// No agent fault from position `i` on.
proof fn lemma_agents_fault_none(agents: Seq<AgentConfig>, ids: Seq<u128>, i: int)
    requires
        0 <= i <= agents.len(),
        agents_fault(agents, ids, i) is None,
    ensures
        forall|k: int| i <= k < agents.len() ==> #[trigger] dep_fault(agents[k], ids, 0) is None,
    decreases agents.len() - i,
{
    if i < agents.len() {
        lemma_agents_fault_none(agents, ids, i + 1);
    }
}

/// A recipe that validates names at least one agent, gives each a distinct
/// id, lets agents depend only on other agents of the recipe, and can be
/// run in an order where every agent comes after what it depends on.
pub proof fn law_valid_recipe_runs_in_dependency_order(r: Recipe)
    requires
        recipe_fault(r) is None,
    ensures
        r.graph.agents@.len() > 0,
        distinct_ids(r.graph.agents@),
        deps_name_other_agents(r.graph.agents@),
        acyclic(r.graph.agents@),
{
    let agents = r.graph.agents@;
    let ids = ids_of(agents);
    lemma_agents_fault_none(agents, ids, 0);
    assert forall|i: int, j: int| 0 <= i < agents.len() && 0 <= j < agents[i].dependencies@.len() implies {
        let d = #[trigger] agents[i].dependencies@[j];
        ids.contains(d) && d != agents[i].id
    } by {
        assert(dep_fault(agents[i], ids, 0) is None);
        lemma_dep_fault_none(agents[i], ids, 0);
    }
}

} // verus!
