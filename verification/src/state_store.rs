//! Persisted agent state: the stored record and an in-memory store keyed by
//! profile and agent.

use vstd::prelude::*;
use crate::clock::{age_seconds, now_rfc3339, rfc3339_age, rfc3339_before, rfc3339_is_before};
use crate::errors::{HelixError, HelixFault};
use crate::json_value::{
    is_empty_json, json_is_empty, json_text_len, json_text_length, merge_members, object_merge, JsonValue,
};

verus! {

/// The persisted state of one agent.
#[derive(Debug, PartialEq)]
pub struct StoredState {
    /// The profile (tenant) the state belongs to.
    pub profile_id: u128,
    /// The agent the state belongs to.
    pub agent_id: u128,
    /// The state data; its meaning is the agent's.
    pub data: JsonValue,
    /// When the state was created or last overwritten (RFC 3339).
    pub created_at: String,
    /// When the state was last updated (RFC 3339).
    pub updated_at: String,
}

/// Whether `out` is `old` with the members of `new` set in it, both objects.
pub open spec fn merged_into(old: JsonValue, new: JsonValue, out: JsonValue) -> bool {
    match (old, new, out) {
        (JsonValue::Object(a), JsonValue::Object(b), JsonValue::Object(c)) => c@ == object_merge(a@, b@),
        _ => false,
    }
}

/// Whether both values are objects, the only ones that merge.
pub open spec fn both_objects(old: JsonValue, new: JsonValue) -> bool {
    old is Object && new is Object
}

/// The fault `validate` reports, if any: null data, then timestamps that do
/// not parse or put the update before the creation.
pub open spec fn state_fault(s: StoredState) -> Option<HelixFault> {
    if s.data is Null {
        Some(HelixFault::Validation("StoredState.data"@, "State data cannot be null"@))
    } else {
        match rfc3339_before(s.updated_at@, s.created_at@) {
            Some(true) => Some(
                HelixFault::Validation(
                    "StoredState.timestamps"@,
                    "Updated timestamp cannot be before created timestamp"@,
                ),
            ),
            Some(false) => None,
            None => Some(HelixFault::Validation("StoredState.timestamps"@, "Timestamps must be RFC 3339 date-times"@)),
        }
    }
}

/// The timestamp check given whether the update time is before the
/// creation time (`None` when a time does not parse).
pub fn check_timestamp_order(updated_before_created: Option<bool>) -> (r: Result<(), HelixError>)
    ensures
        match updated_before_created {
            Some(false) => r is Ok,
            Some(true) => r matches Err(e) && e@ == HelixFault::Validation(
                "StoredState.timestamps"@,
                "Updated timestamp cannot be before created timestamp"@,
            ),
            None => r matches Err(e) && e@ == HelixFault::Validation(
                "StoredState.timestamps"@,
                "Timestamps must be RFC 3339 date-times"@,
            ),
        },
{
    match updated_before_created {
        Some(true) => Err(
            HelixError::validation_error("StoredState.timestamps", "Updated timestamp cannot be before created timestamp"),
        ),
        Some(false) => Ok(()),
        None => Err(HelixError::validation_error("StoredState.timestamps", "Timestamps must be RFC 3339 date-times")),
    }
}

/// Whether a known age exceeds `seconds`; false when the age is unknown.
pub fn age_exceeds(age: Option<i64>, seconds: i64) -> (b: bool)
    ensures
        b == match age {
            Some(a) => a > seconds,
            None => false,
        },
{
    match age {
        Some(a) => a > seconds,
        None => false,
    }
}

/// Whether a state updated at `updated` is older than `seconds` at the time
/// `now`: its age is known and exceeds them.
pub open spec fn older_at(updated: Seq<char>, seconds: i64, now: Seq<char>) -> bool {
    match rfc3339_age(updated, now) {
        Some(a) => a > seconds,
        None => false,
    }
}

impl StoredState {
    /// A new state record, created and updated now.
    pub fn new(profile_id: u128, agent_id: u128, data: JsonValue) -> (s: Self)
        ensures
            s.profile_id == profile_id,
            s.agent_id == agent_id,
            s.data == data,
            s.created_at@ == s.updated_at@,
    {
        let now = now_rfc3339();
        let created_at = now.clone();
        StoredState { profile_id, agent_id, data, created_at, updated_at: now }
    }

    /// Replaces the data and stamps the update time.
    pub fn update_data(&mut self, data: JsonValue)
        ensures
            final(self).data == data,
            final(self).profile_id == old(self).profile_id,
            final(self).agent_id == old(self).agent_id,
            final(self).created_at == old(self).created_at,
    {
        self.data = data;
        self.updated_at = now_rfc3339();
    }

    /// The age of the state in whole seconds at the RFC 3339 time `now`,
    /// counted from the last update; `None` when a time does not parse.
    pub fn age_seconds_at(&self, now: &str) -> (r: Option<i64>)
        ensures
            match r {
                Some(a) => rfc3339_age(self.updated_at@, now@) == Some(a as int),
                None => rfc3339_age(self.updated_at@, now@) is None,
            },
    {
        age_seconds(self.updated_at.as_str(), now)
    }

    /// The age of the state in whole seconds, counted from the last update
    /// to the current time.
    pub fn age_seconds(&self) -> (r: Option<i64>)
        ensures
            match r {
                Some(a) => exists|now: Seq<char>| rfc3339_age(self.updated_at@, now) == Some(a as int),
                None => exists|now: Seq<char>| rfc3339_age(self.updated_at@, now) is None,
            },
    {
        let now = now_rfc3339();
        self.age_seconds_at(now.as_str())
    }

    /// Whether the state is older than `seconds` at the time `now`; false
    /// when a time does not parse.
    pub fn is_older_than_at(&self, seconds: i64, now: &str) -> (b: bool)
        ensures
            b == older_at(self.updated_at@, seconds, now@),
    {
        age_exceeds(self.age_seconds_at(now), seconds)
    }

    /// Whether the state is older than `seconds` now.
    pub fn is_older_than(&self, seconds: i64) -> (b: bool)
        ensures
            exists|now: Seq<char>| b == #[trigger] older_at(self.updated_at@, seconds, now),
    {
        let now = now_rfc3339();
        self.is_older_than_at(seconds, now.as_str())
    }

    /// The length in bytes of the data's JSON text.
    pub fn size_bytes(&self) -> (n: usize)
        ensures
            n == json_text_length(self.data),
    {
        json_text_len(&self.data)
    }

    /// Whether the data is empty: null, or an empty object, array or string.
    pub fn is_empty(&self) -> (b: bool)
        ensures
            b == json_is_empty(self.data),
    {
        is_empty_json(&self.data)
    }

    /// Checks the record (see `state_fault`).
    pub fn validate(&self) -> (r: Result<(), HelixError>)
        ensures
            match r {
                Ok(()) => state_fault(*self) is None,
                Err(e) => state_fault(*self) == Some(e@),
            },
    {
        if let JsonValue::Null = self.data {
            return Err(HelixError::validation_error("StoredState.data", "State data cannot be null"));
        }
        check_timestamp_order(rfc3339_is_before(self.updated_at.as_str(), self.created_at.as_str()))
    }

    /// Sets every member of `other` in the data, both being objects, and
    /// stamps the update time; fails and changes nothing otherwise.
    pub fn merge_data(&mut self, other: JsonValue) -> (r: Result<(), HelixError>)
        ensures
            final(self).profile_id == old(self).profile_id,
            final(self).agent_id == old(self).agent_id,
            final(self).created_at == old(self).created_at,
            r is Ok <==> both_objects(old(self).data, other),
            r is Ok ==> merged_into(old(self).data, other, final(self).data),
            r matches Err(e) ==> e@ == HelixFault::Validation(
                "StoredState.merge"@,
                "Can only merge object states"@,
            ) && *final(self) == *old(self),
    {
        if let JsonValue::Object(_) = self.data {
            if let JsonValue::Object(b) = other {
                let mut taken = JsonValue::Null;
                std::mem::swap(&mut taken, &mut self.data);
                if let JsonValue::Object(mut a) = taken {
                    merge_members(&mut a, b);
                    self.data = JsonValue::Object(a);
                    self.updated_at = now_rfc3339();
                    return Ok(());
                }
            }
        }
        Err(HelixError::validation_error("StoredState.merge", "Can only merge object states"))
    }
}

// ---------------------------------------------------------------------------
// The in-memory store.
// ---------------------------------------------------------------------------

/// The key of a record: its profile and agent.
pub open spec fn key_of(s: StoredState) -> (u128, u128) {
    (s.profile_id, s.agent_id)
}

/// No two records share a key.
pub open spec fn keys_unique(s: Seq<StoredState>) -> bool {
    forall|i: int, j: int| 0 <= i < j < s.len() ==> key_of(#[trigger] s[i]) != key_of(#[trigger] s[j])
}

/// The record stored under `k`: the last one with that key.
pub open spec fn find_state(s: Seq<StoredState>, k: (u128, u128)) -> Option<StoredState>
    decreases s.len(),
{
    if s.len() == 0 {
        None
    } else if key_of(s.last()) == k {
        Some(s.last())
    } else {
        find_state(s.drop_last(), k)
    }
}

/// The records that do not belong to profile `p`, in order.
pub open spec fn without_profile(s: Seq<StoredState>, p: u128) -> Seq<StoredState>
    decreases s.len(),
{
    if s.len() == 0 {
        s
    } else if s.last().profile_id == p {
        without_profile(s.drop_last(), p)
    } else {
        without_profile(s.drop_last(), p).push(s.last())
    }
}

/// How many records belong to profile `p`.
pub open spec fn count_profile(s: Seq<StoredState>, p: u128) -> nat
    decreases s.len(),
{
    if s.len() == 0 {
        0
    } else {
        count_profile(s.drop_last(), p) + if s.last().profile_id == p {
            1nat
        } else {
            0nat
        }
    }
}

/// The agents with a record in profile `p`, in order.
pub open spec fn agents_in(s: Seq<StoredState>, p: u128) -> Seq<u128>
    decreases s.len(),
{
    if s.len() == 0 {
        Seq::empty()
    } else if s.last().profile_id == p {
        agents_in(s.drop_last(), p).push(s.last().agent_id)
    } else {
        agents_in(s.drop_last(), p)
    }
}

proof fn lemma_find_at(s: Seq<StoredState>, i: int)
    requires
        keys_unique(s),
        0 <= i < s.len(),
    ensures
        find_state(s, key_of(s[i])) == Some(s[i]),
    decreases s.len(),
{
    if i < s.len() - 1 {
        assert(key_of(s[i]) != key_of(s.last()));
        assert(s.drop_last()[i] == s[i]);
        lemma_find_at(s.drop_last(), i);
    }
}

proof fn lemma_find_absent(s: Seq<StoredState>, k: (u128, u128))
    requires
        forall|i: int| 0 <= i < s.len() ==> key_of(#[trigger] s[i]) != k,
    ensures
        find_state(s, k) is None,
    decreases s.len(),
{
    if s.len() > 0 {
        assert(key_of(s[s.len() - 1]) != k);
        assert forall|i: int| 0 <= i < s.drop_last().len() implies key_of(#[trigger] s.drop_last()[i]) != k by {
            assert(s.drop_last()[i] == s[i]);
        }
        lemma_find_absent(s.drop_last(), k);
    }
}

proof fn lemma_find_some_has_index(s: Seq<StoredState>, k: (u128, u128))
    requires
        find_state(s, k) is Some,
    ensures
        exists|i: int| 0 <= i < s.len() && key_of(#[trigger] s[i]) == k,
    decreases s.len(),
{
    if key_of(s.last()) == k {
        assert(key_of(s[s.len() - 1]) == k);
    } else {
        lemma_find_some_has_index(s.drop_last(), k);
        let i = choose|i: int| 0 <= i < s.drop_last().len() && key_of(#[trigger] s.drop_last()[i]) == k;
        assert(s.drop_last()[i] == s[i]);
    }
}

/// With unique keys, the record under every key is determined by the
/// records carrying it, so two sequences agreeing on them agree on lookups.
proof fn lemma_find_matches(s: Seq<StoredState>, t: Seq<StoredState>, k: (u128, u128))
    requires
        keys_unique(s),
        keys_unique(t),
        forall|i: int| 0 <= i < s.len() && key_of(#[trigger] s[i]) == k ==> exists|j: int|
            0 <= j < t.len() && #[trigger] t[j] == s[i],
        forall|j: int| 0 <= j < t.len() && key_of(#[trigger] t[j]) == k ==> exists|i: int|
            0 <= i < s.len() && #[trigger] s[i] == t[j],
    ensures
        find_state(s, k) == find_state(t, k),
{
    if exists|i: int| 0 <= i < s.len() && key_of(#[trigger] s[i]) == k {
        let i = choose|i: int| 0 <= i < s.len() && key_of(#[trigger] s[i]) == k;
        let j = choose|j: int| 0 <= j < t.len() && #[trigger] t[j] == s[i];
        lemma_find_at(s, i);
        lemma_find_at(t, j);
    } else {
        lemma_find_absent(s, k);
        assert forall|j: int| 0 <= j < t.len() implies key_of(#[trigger] t[j]) != k by {
            if key_of(t[j]) == k {
                let i = choose|i: int| 0 <= i < s.len() && #[trigger] s[i] == t[j];
                assert(key_of(s[i]) == k);
            }
        }
        lemma_find_absent(t, k);
    }
}

proof fn lemma_without_profile(s: Seq<StoredState>, p: u128, k: (u128, u128))
    ensures
        find_state(without_profile(s, p), k) == if k.0 == p {
            None
        } else {
            find_state(s, k)
        },
    decreases s.len(),
{
    if s.len() > 0 {
        lemma_without_profile(s.drop_last(), p, k);
        let w = without_profile(s.drop_last(), p);
        if s.last().profile_id != p {
            assert(without_profile(s, p).drop_last() =~= w);
        }
    }
}

proof fn lemma_without_profile_from(s: Seq<StoredState>, p: u128)
    ensures
        forall|j: int| 0 <= j < without_profile(s, p).len() ==> exists|i: int|
            0 <= i < s.len() && #[trigger] s[i] == #[trigger] without_profile(s, p)[j],
        forall|j: int| 0 <= j < without_profile(s, p).len() ==> (#[trigger] without_profile(s, p)[j]).profile_id != p,
    decreases s.len(),
{
    if s.len() > 0 {
        let d = s.drop_last();
        lemma_without_profile_from(d, p);
        let w = without_profile(d, p);
        assert forall|j: int| #![trigger w[j]] 0 <= j < w.len() implies exists|i: int|
            0 <= i < s.len() && #[trigger] s[i] == w[j] by {
            let i = choose|i: int| 0 <= i < d.len() && #[trigger] d[i] == w[j];
            assert(s[i] == d[i]);
        }
        if s.last().profile_id != p {
            assert forall|j: int| #![trigger without_profile(s, p)[j]] 0 <= j < without_profile(s, p).len() implies exists|i: int|
                0 <= i < s.len() && #[trigger] s[i] == without_profile(s, p)[j] by {
                if j < w.len() {
                    assert(without_profile(s, p)[j] == w[j]);
                } else {
                    assert(s[s.len() - 1] == without_profile(s, p)[j]);
                }
            }
            assert forall|j: int| 0 <= j < without_profile(s, p).len() implies (
            #[trigger] without_profile(s, p)[j]).profile_id != p by {
                if j < w.len() {
                    assert(without_profile(s, p)[j] == w[j]);
                }
            }
        }
    }
}

proof fn lemma_without_profile_unique(s: Seq<StoredState>, p: u128)
    requires
        keys_unique(s),
    ensures
        keys_unique(without_profile(s, p)),
    decreases s.len(),
{
    if s.len() > 0 {
        let d = s.drop_last();
        assert(keys_unique(d)) by {
            assert forall|i: int, j: int| 0 <= i < j < d.len() implies key_of(#[trigger] d[i]) != key_of(
                #[trigger] d[j],
            ) by {
                assert(d[i] == s[i] && d[j] == s[j]);
            }
        }
        lemma_without_profile_unique(d, p);
        let w = without_profile(d, p);
        if s.last().profile_id != p {
            lemma_without_profile_from(d, p);
            let ws = without_profile(s, p);
            assert forall|i: int, j: int| 0 <= i < j < ws.len() implies key_of(#[trigger] ws[i]) != key_of(
                #[trigger] ws[j],
            ) by {
                assert(ws[i] == w[i]);
                if j < w.len() {
                    assert(ws[j] == w[j]);
                } else {
                    let a = choose|a: int| 0 <= a < d.len() && #[trigger] d[a] == w[i];
                    assert(s[a] == d[a]);
                    assert(key_of(s[a]) != key_of(s[s.len() - 1]));
                }
            }
        }
    }
}

proof fn lemma_count_bound(s: Seq<StoredState>, p: u128)
    ensures
        count_profile(s, p) + without_profile(s, p).len() == s.len(),
    decreases s.len(),
{
    if s.len() > 0 {
        lemma_count_bound(s.drop_last(), p);
    }
}

proof fn lemma_agents_in(s: Seq<StoredState>, p: u128, a: u128)
    ensures
        agents_in(s, p).contains(a) <==> find_state(s, (p, a)) is Some,
    decreases s.len(),
{
    if s.len() > 0 {
        lemma_agents_in(s.drop_last(), p, a);
        let x = agents_in(s.drop_last(), p);
        if s.last().profile_id == p {
            assert(x.push(s.last().agent_id).contains(a) <==> (x.contains(a) || s.last().agent_id == a)) by {
                if x.contains(a) {
                    let i = choose|i: int| 0 <= i < x.len() && x[i] == a;
                    assert(x.push(s.last().agent_id)[i] == a);
                }
                if x.push(s.last().agent_id).contains(a) {
                    let i = choose|i: int| 0 <= i < x.len() + 1 && x.push(s.last().agent_id)[i] == a;
                    if i < x.len() {
                        assert(x[i] == a);
                    }
                }
                if s.last().agent_id == a {
                    assert(x.push(s.last().agent_id)[x.len() as int] == a);
                }
            }
        }
    }
}

proof fn lemma_agents_distinct(s: Seq<StoredState>, p: u128)
    requires
        keys_unique(s),
    ensures
        agents_in(s, p).no_duplicates(),
    decreases s.len(),
{
    if s.len() > 0 {
        let d = s.drop_last();
        assert(keys_unique(d)) by {
            assert forall|i: int, j: int| 0 <= i < j < d.len() implies key_of(#[trigger] d[i]) != key_of(
                #[trigger] d[j],
            ) by {
                assert(d[i] == s[i] && d[j] == s[j]);
            }
        }
        lemma_agents_distinct(d, p);
        if s.last().profile_id == p {
            let a = s.last().agent_id;
            lemma_agents_in(d, p, a);
            if find_state(d, (p, a)) is Some {
                lemma_find_some_has_index(d, (p, a));
                let i = choose|i: int| 0 <= i < d.len() && key_of(#[trigger] d[i]) == (p, a);
                assert(d[i] == s[i]);
                assert(key_of(s[i]) != key_of(s[s.len() - 1]));
            }
            let x = agents_in(d, p);
            assert forall|i: int, j: int| 0 <= i < j < x.push(a).len() implies x.push(a)[i] != x.push(a)[j] by {
                if j == x.len() {
                    assert(x.push(a)[i] == x[i]);
                    assert(x.contains(x[i]));
                }
            }
        }
    }
}

/// An in-memory store of agent states, one record per profile and agent.
pub struct InMemoryStateStore {
    states: Vec<StoredState>,
}

impl InMemoryStateStore {
    /// The records held, in the order they were first stored.
    pub closed spec fn records(&self) -> Seq<StoredState> {
        self.states@
    }

    /// The store's invariant: one record per key.
    pub open spec fn wf(&self) -> bool {
        keys_unique(self.records())
    }

    /// The record stored for `agent` in `profile`.
    pub open spec fn state_of(&self, profile: u128, agent: u128) -> Option<StoredState> {
        find_state(self.records(), (profile, agent))
    }

    /// An empty store.
    pub fn new() -> (s: Self)
        ensures
            s.wf(),
            s.records().len() == 0,
            forall|p: u128, a: u128| #[trigger] s.state_of(p, a) is None,
    {
        InMemoryStateStore { states: Vec::new() }
    }

    fn position(&self, profile: u128, agent: u128) -> (r: Option<usize>)
        requires
            self.wf(),
        ensures
            match r {
                Some(i) => i < self.records().len() && key_of(self.records()[i as int]) == (profile, agent)
                    && self.state_of(profile, agent) == Some(self.records()[i as int]),
                None => self.state_of(profile, agent) is None && forall|i: int|
                    0 <= i < self.records().len() ==> key_of(#[trigger] self.records()[i]) != (profile, agent),
            },
    {
        let mut i: usize = 0;
        while i < self.states.len()
            invariant
                i <= self.states@.len(),
                self.wf(),
                forall|j: int| 0 <= j < i ==> key_of(#[trigger] self.states@[j]) != (profile, agent),
            decreases self.states@.len() - i,
        {
            if self.states[i].profile_id == profile && self.states[i].agent_id == agent {
                proof {
                    lemma_find_at(self.states@, i as int);
                }
                return Some(i);
            }
            i = i + 1;
        }
        proof {
            lemma_find_absent(self.states@, (profile, agent));
        }
        None
    }

    /// The data stored for `agent` in `profile`.
    pub fn get_state(&self, profile: u128, agent: u128) -> (r: Option<&JsonValue>)
        requires
            self.wf(),
        ensures
            match r {
                Some(d) => self.state_of(profile, agent) matches Some(s) && s.data == *d,
                None => self.state_of(profile, agent) is None,
            },
    {
        match self.position(profile, agent) {
            Some(i) => Some(&self.states[i].data),
            None => None,
        }
    }

    /// The whole record stored for `agent` in `profile`.
    pub fn get_stored_state(&self, profile: u128, agent: u128) -> (r: Option<&StoredState>)
        requires
            self.wf(),
        ensures
            match r {
                Some(s) => self.state_of(profile, agent) == Some(*s),
                None => self.state_of(profile, agent) is None,
            },
    {
        match self.position(profile, agent) {
            Some(i) => Some(&self.states[i]),
            None => None,
        }
    }

    /// Stores `data` for `agent` in `profile`. An existing record keeps its
    /// creation time and gets a new update time; otherwise a new record is
    /// made. Every other record is unchanged.
    pub fn set_state(&mut self, profile: u128, agent: u128, data: JsonValue)
        requires
            old(self).wf(),
        ensures
            final(self).wf(),
            final(self).state_of(profile, agent) matches Some(s) && s.data == data && s.profile_id == profile
                && s.agent_id == agent && match old(self).state_of(profile, agent) {
                Some(o) => s.created_at == o.created_at,
                None => s.created_at@ == s.updated_at@,
            },
            forall|p: u128, a: u128|
                (p, a) != (profile, agent) ==> #[trigger] final(self).state_of(p, a) == old(self).state_of(p, a),
    {
        let ghost before = self.states@;
        match self.position(profile, agent) {
            Some(i) => {
                let created_at = self.states[i].created_at.clone();
                let st = StoredState { profile_id: profile, agent_id: agent, data, created_at, updated_at: now_rfc3339() };
                self.states.set(i, st);
                proof {
                    let after = self.states@;
                    assert(keys_unique(after)) by {
                        assert forall|x: int, y: int| 0 <= x < y < after.len() implies key_of(
                            #[trigger] after[x],
                        ) != key_of(#[trigger] after[y]) by {
                            assert(key_of(after[x]) == key_of(before[x]));
                            assert(key_of(after[y]) == key_of(before[y]));
                        }
                    }
                    lemma_find_at(after, i as int);
                    assert forall|p: u128, a: u128| (p, a) != (profile, agent) implies #[trigger] find_state(
                        after,
                        (p, a),
                    ) == find_state(before, (p, a)) by {
                        assert forall|x: int| 0 <= x < after.len() && key_of(#[trigger] after[x]) == (p, a) implies exists|y: int|
                            0 <= y < before.len() && #[trigger] before[y] == after[x] by {
                            assert(before[x] == after[x]);
                        }
                        assert forall|y: int| 0 <= y < before.len() && key_of(#[trigger] before[y]) == (p, a) implies exists|x: int|
                            0 <= x < after.len() && #[trigger] after[x] == before[y] by {
                            assert(before[y] == after[y]);
                        }
                        lemma_find_matches(after, before, (p, a));
                    }
                }
            },
            None => {
                let st = StoredState::new(profile, agent, data);
                self.states.push(st);
                proof {
                    let after = self.states@;
                    assert(keys_unique(after)) by {
                        assert forall|x: int, y: int| 0 <= x < y < after.len() implies key_of(
                            #[trigger] after[x],
                        ) != key_of(#[trigger] after[y]) by {
                            assert(after[x] == before[x]);
                            if y < before.len() {
                                assert(after[y] == before[y]);
                            }
                        }
                    }
                    assert(after.drop_last() =~= before);
                }
            },
        }
    }

    /// Removes the record for `agent` in `profile`; whether there was one.
    pub fn delete_state(&mut self, profile: u128, agent: u128) -> (deleted: bool)
        requires
            old(self).wf(),
        ensures
            final(self).wf(),
            deleted == old(self).state_of(profile, agent) is Some,
            final(self).state_of(profile, agent) is None,
            forall|p: u128, a: u128|
                (p, a) != (profile, agent) ==> #[trigger] final(self).state_of(p, a) == old(self).state_of(p, a),
    {
        let ghost before = self.states@;
        match self.position(profile, agent) {
            Some(i) => {
                self.states.remove(i);
                proof {
                    let after = self.states@;
                    assert(after =~= before.remove(i as int));
                    assert(keys_unique(after)) by {
                        assert forall|x: int, y: int| 0 <= x < y < after.len() implies key_of(
                            #[trigger] after[x],
                        ) != key_of(#[trigger] after[y]) by {
                            let bx = if x < i { x } else { x + 1 };
                            let by_ = if y < i { y } else { y + 1 };
                            assert(after[x] == before[bx]);
                            assert(after[y] == before[by_]);
                        }
                    }
                    assert forall|x: int| 0 <= x < after.len() implies key_of(#[trigger] after[x]) != (
                    profile, agent) by {
                        let bx = if x < i { x } else { x + 1 };
                        assert(after[x] == before[bx]);
                    }
                    lemma_find_absent(after, (profile, agent));
                    assert forall|p: u128, a: u128| (p, a) != (profile, agent) implies #[trigger] find_state(
                        after,
                        (p, a),
                    ) == find_state(before, (p, a)) by {
                        assert forall|x: int| 0 <= x < after.len() && key_of(#[trigger] after[x]) == (p, a) implies exists|y: int|
                            0 <= y < before.len() && #[trigger] before[y] == after[x] by {
                            let bx = if x < i { x } else { x + 1 };
                            assert(before[bx] == after[x]);
                        }
                        assert forall|y: int| 0 <= y < before.len() && key_of(#[trigger] before[y]) == (p, a) implies exists|x: int|
                            0 <= x < after.len() && #[trigger] after[x] == before[y] by {
                            let ax = if y < i { y } else { y - 1 };
                            assert(y != i);
                            assert(after[ax] == before[y]);
                        }
                        lemma_find_matches(after, before, (p, a));
                    }
                }
                true
            },
            None => false,
        }
    }

    /// The agents with a record in `profile`, each once.
    pub fn list_agent_ids(&self, profile: u128) -> (ids: Vec<u128>)
        requires
            self.wf(),
        ensures
            ids@ == agents_in(self.records(), profile),
            ids@.no_duplicates(),
            forall|a: u128| ids@.contains(a) <==> #[trigger] self.state_of(profile, a) is Some,
    {
        let mut ids: Vec<u128> = Vec::new();
        let mut i: usize = 0;
        while i < self.states.len()
            invariant
                i <= self.states@.len(),
                ids@ == agents_in(self.states@.subrange(0, i as int), profile),
            decreases self.states@.len() - i,
        {
            assert(self.states@.subrange(0, i + 1).drop_last() =~= self.states@.subrange(0, i as int));
            if self.states[i].profile_id == profile {
                ids.push(self.states[i].agent_id);
            }
            i = i + 1;
        }
        assert(self.states@.subrange(0, self.states@.len() as int) =~= self.states@);
        proof {
            lemma_agents_distinct(self.states@, profile);
            assert forall|a: u128| ids@.contains(a) <==> #[trigger] self.state_of(profile, a) is Some by {
                lemma_agents_in(self.states@, profile, a);
            }
        }
        ids
    }

    /// Sets the members of `data` in the record for `agent` in `profile`,
    /// or stores `data` as a new record when there is none. Merging fails,
    /// changing nothing, unless both the stored data and `data` are objects.
    pub fn merge_state(&mut self, profile: u128, agent: u128, data: JsonValue) -> (r: Result<(), HelixError>)
        requires
            old(self).wf(),
        ensures
            final(self).wf(),
            match old(self).state_of(profile, agent) {
                None => r is Ok && (final(self).state_of(profile, agent) matches Some(s) && s.data == data
                    && s.profile_id == profile && s.agent_id == agent),
                Some(o) => if both_objects(o.data, data) {
                    r is Ok && (final(self).state_of(profile, agent) matches Some(s) && merged_into(
                        o.data,
                        data,
                        s.data,
                    ) && s.created_at == o.created_at && key_of(s) == key_of(o))
                } else {
                    r matches Err(e) && e@ == HelixFault::Validation(
                        "StoredState.merge"@,
                        "Can only merge object states"@,
                    ) && final(self).state_of(profile, agent) == Some(o)
                },
            },
            forall|p: u128, a: u128|
                (p, a) != (profile, agent) ==> #[trigger] final(self).state_of(p, a) == old(self).state_of(p, a),
    {
        let ghost before = self.states@;
        match self.position(profile, agent) {
            Some(i) => {
                let mut st = self.states.remove(i);
                let r = st.merge_data(data);
                self.states.insert(i, st);
                proof {
                    let after = self.states@;
                    assert(after =~= before.update(i as int, after[i as int]));
                    assert(key_of(after[i as int]) == key_of(before[i as int]));
                    assert(keys_unique(after)) by {
                        assert forall|x: int, y: int| 0 <= x < y < after.len() implies key_of(
                            #[trigger] after[x],
                        ) != key_of(#[trigger] after[y]) by {
                            assert(key_of(after[x]) == key_of(before[x]));
                            assert(key_of(after[y]) == key_of(before[y]));
                        }
                    }
                    lemma_find_at(after, i as int);
                    assert forall|p: u128, a: u128| (p, a) != (profile, agent) implies #[trigger] find_state(
                        after,
                        (p, a),
                    ) == find_state(before, (p, a)) by {
                        assert forall|x: int| 0 <= x < after.len() && key_of(#[trigger] after[x]) == (p, a) implies exists|y: int|
                            0 <= y < before.len() && #[trigger] before[y] == after[x] by {
                            assert(before[x] == after[x]);
                        }
                        assert forall|y: int| 0 <= y < before.len() && key_of(#[trigger] before[y]) == (p, a) implies exists|x: int|
                            0 <= x < after.len() && #[trigger] after[x] == before[y] by {
                            assert(before[y] == after[y]);
                        }
                        lemma_find_matches(after, before, (p, a));
                    }
                }
                r
            },
            None => {
                self.set_state(profile, agent, data);
                Ok(())
            },
        }
    }

    /// Removes every record of `profile`; how many there were. Records of
    /// other profiles are unchanged.
    pub fn clear_profile_state(&mut self, profile: u128) -> (count: u64)
        requires
            old(self).wf(),
        ensures
            final(self).wf(),
            count == count_profile(old(self).records(), profile),
            final(self).records() == without_profile(old(self).records(), profile),
            forall|a: u128| #[trigger] final(self).state_of(profile, a) is None,
            forall|p: u128, a: u128| p != profile ==> #[trigger] final(self).state_of(p, a) == old(self).state_of(p, a),
    {
        let ghost before = self.states@;
        assert(before.len() == self.states.len());
        let mut kept: Vec<StoredState> = Vec::new();
        let mut rest: Vec<StoredState> = Vec::new();
        std::mem::swap(&mut rest, &mut self.states);
        let mut count: u64 = 0;
        let mut done: usize = 0;
        assert(before.subrange(0, 0) =~= Seq::<StoredState>::empty());
        assert(rest@.len() == before.len());
        while rest.len() > 0
            invariant
                done + rest@.len() == before.len(),
                before.len() <= usize::MAX,
                rest@ == before.subrange(done as int, before.len() as int),
                kept@ == without_profile(before.subrange(0, done as int), profile),
                count == count_profile(before.subrange(0, done as int), profile),
                count <= done,
            decreases rest@.len(),
        {
            let ghost prefix = before.subrange(0, done + 1);
            assert(prefix.drop_last() =~= before.subrange(0, done as int));
            assert(prefix.last() == rest@[0]);
            let st = rest.remove(0);
            if st.profile_id == profile {
                count = count + 1;
            } else {
                kept.push(st);
            }
            assert(rest@ =~= before.subrange(done + 1, before.len() as int));
            done = done + 1;
        }
        assert(before.subrange(0, before.len() as int) =~= before);
        self.states = kept;
        proof {
            lemma_without_profile_unique(before, profile);
            assert forall|a: u128| #[trigger] find_state(self.states@, (profile, a)) is None by {
                lemma_without_profile(before, profile, (profile, a));
            }
            assert forall|p: u128, a: u128| p != profile implies #[trigger] find_state(self.states@, (p, a))
                == find_state(before, (p, a)) by {
                lemma_without_profile(before, profile, (p, a));
            }
        }
        count
    }
}

impl Default for InMemoryStateStore {
    fn default() -> (s: Self)
        ensures
            s.wf(),
            s.records().len() == 0,
    {
        InMemoryStateStore::new()
    }
}

/// Deleting what was just stored undoes the store for that key: the key is
/// empty again and every other key reads as before both calls.
pub proof fn law_delete_undoes_set(
    start: InMemoryStateStore,
    stored: InMemoryStateStore,
    deleted: InMemoryStateStore,
    profile: u128,
    agent: u128,
)
    requires
        start.wf(),
        stored.wf(),
        deleted.wf(),
        stored.state_of(profile, agent) is Some,
        forall|p: u128, a: u128| (p, a) != (profile, agent) ==> #[trigger] stored.state_of(p, a) == start.state_of(p, a),
        deleted.state_of(profile, agent) is None,
        forall|p: u128, a: u128| (p, a) != (profile, agent) ==> #[trigger] deleted.state_of(p, a) == stored.state_of(p, a),
    ensures
        forall|p: u128, a: u128| (p, a) != (profile, agent) ==> #[trigger] deleted.state_of(p, a) == start.state_of(p, a),
        deleted.state_of(profile, agent) is None,
{
    assert forall|p: u128, a: u128| (p, a) != (profile, agent) implies #[trigger] deleted.state_of(p, a) == start.state_of(p, a) by {
        assert(deleted.state_of(p, a) == stored.state_of(p, a));
    }
}

} // verus!
