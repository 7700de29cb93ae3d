//! The registry of sessions on the desk: one session per id, with presence
//! recomputed from heartbeats.

use vstd::prelude::*;
use crate::operator_session::{
    OperatorSession, PresenceThresholds, SessionKind, SessionStatus, session_status_at,
};
use crate::operator_proposals::{copy_opt_string, opt_text};
use crate::symbolic_program::str_eq;
use crate::text::copy_string;
use crate::clock::now_rfc3339;

verus! {

/// A session with its texts taken as character sequences.
pub open spec fn session_view(s: OperatorSession) -> (
    Seq<char>,
    Seq<char>,
    SessionKind,
    crate::operator_session::SessionRole,
    SessionStatus,
    Seq<char>,
    Seq<char>,
    Option<Seq<char>>,
) {
    (s.id@, s.display_name@, s.kind, s.role, s.status, s.joined_at@, s.last_heartbeat@, opt_text(s.location))
}

/// A copy of a session.
pub fn copy_session(s: &OperatorSession) -> (c: OperatorSession)
    ensures
        session_view(c) == session_view(*s),
{
    OperatorSession {
        id: copy_string(&s.id),
        display_name: copy_string(&s.display_name),
        kind: s.kind,
        role: s.role,
        status: s.status,
        joined_at: copy_string(&s.joined_at),
        last_heartbeat: copy_string(&s.last_heartbeat),
        location: copy_opt_string(&s.location),
    }
}

/// The position of the first session with this id; `v.len()` when none has it.
pub open spec fn session_index(v: Seq<OperatorSession>, id: Seq<char>) -> nat
    decreases v.len(),
{
    if v.len() == 0 {
        0
    } else if v[0].id@ == id {
        0
    } else {
        1 + session_index(v.drop_first(), id)
    }
}

/// No two sessions share an id.
pub open spec fn ids_unique(v: Seq<OperatorSession>) -> bool {
    forall|i: int, j: int| 0 <= i < j < v.len() ==> v[i].id@ != v[j].id@
}

/// `s` with the presence it has at `now` under `t`.
pub open spec fn refreshed(s: OperatorSession, now: Seq<char>, t: PresenceThresholds) -> OperatorSession {
    OperatorSession {
        status: session_status_at(s.last_heartbeat@, now, t.idle_secs, t.disconnect_secs),
        ..s
    }
}

/// Every session with the presence it has at `now` under `t`.
pub open spec fn refreshed_all(v: Seq<OperatorSession>, now: Seq<char>, t: PresenceThresholds) -> Seq<OperatorSession> {
    v.map_values(|s: OperatorSession| refreshed(s, now, t))
}

/// The sessions still connected at `now`, in order.
pub open spec fn connected_at(v: Seq<OperatorSession>, now: Seq<char>, t: PresenceThresholds) -> Seq<OperatorSession>
    decreases v.len(),
{
    if v.len() == 0 {
        Seq::empty()
    } else if session_status_at(v.last().last_heartbeat@, now, t.idle_secs, t.disconnect_secs)
        == SessionStatus::Disconnected {
        connected_at(v.drop_last(), now, t)
    } else {
        connected_at(v.drop_last(), now, t).push(v.last())
    }
}

/// The number of sessions of this kind.
pub open spec fn count_kind(v: Seq<OperatorSession>, k: SessionKind) -> nat
    decreases v.len(),
{
    if v.len() == 0 {
        0
    } else {
        count_kind(v.drop_last(), k) + if v.last().kind == k { 1nat } else { 0nat }
    }
}

/// The sessions on the desk, keyed by their ids.
pub struct OperatorRegistry {
    sessions: Vec<OperatorSession>,
    thresholds: PresenceThresholds,
}

impl OperatorRegistry {
    /// The sessions, in the order they were first added.
    pub closed spec fn sessions_v(&self) -> Seq<OperatorSession> {
        self.sessions@
    }

    /// The presence thresholds.
    pub closed spec fn thresholds_v(&self) -> PresenceThresholds {
        self.thresholds
    }

    /// The registry holds at most one session per id.
    pub open spec fn wf(&self) -> bool {
        ids_unique(self.sessions_v())
    }

    /// An empty registry with the default presence thresholds.
    pub fn new() -> (r: Self)
        ensures
            r.wf(),
            r.sessions_v().len() == 0,
            r.thresholds_v().idle_secs == 30,
            r.thresholds_v().disconnect_secs == 90,
    {
        OperatorRegistry { sessions: Vec::new(), thresholds: PresenceThresholds::default() }
    }

    /// An empty registry with the given presence thresholds.
    pub fn with_thresholds(thresholds: PresenceThresholds) -> (r: Self)
        ensures
            r.wf(),
            r.sessions_v().len() == 0,
            r.thresholds_v() == thresholds,
    {
        OperatorRegistry { sessions: Vec::new(), thresholds }
    }

    /// The position of the first session with this id, or the length.
    fn position(&self, id: &str) -> (i: usize)
        ensures
            i == session_index(self.sessions_v(), id@),
            i <= self.sessions@.len(),
            i < self.sessions@.len() ==> self.sessions@[i as int].id@ == id@,
            i == self.sessions@.len() ==> forall|j: int| 0 <= j < self.sessions@.len() ==> #[trigger] self.sessions@[j].id@ != id@,
    {
        let ghost v = self.sessions@;
        let mut i: usize = 0;
        assert(v.subrange(0, v.len() as int) =~= v);
        while i < self.sessions.len()
            invariant
                i <= self.sessions@.len(),
                v == self.sessions@,
                session_index(v, id@) == i + session_index(v.subrange(i as int, v.len() as int), id@),
                forall|j: int| 0 <= j < i ==> #[trigger] v[j].id@ != id@,
            decreases self.sessions@.len() - i,
        {
            let ghost rest = v.subrange(i as int, v.len() as int);
            assert(rest[0] == v[i as int]);
            if str_eq(self.sessions[i].id.as_str(), id) {
                return i;
            }
            assert(rest.drop_first() =~= v.subrange(i + 1, v.len() as int));
            i = i + 1;
        }
        i
    }

    /// Adds a session, replacing the one with the same id; returns its id.
    pub fn add(&mut self, session: OperatorSession) -> (id: String)
        requires
            old(self).wf(),
        ensures
            final(self).wf(),
            id@ == session.id@,
            final(self).thresholds_v() == old(self).thresholds_v(),
            ({
                let i = session_index(old(self).sessions_v(), session.id@) as int;
                final(self).sessions_v() == if i < old(self).sessions_v().len() {
                    old(self).sessions_v().update(i, session)
                } else {
                    old(self).sessions_v().push(session)
                }
            }),
    {
        let id = copy_string(&session.id);
        let i = self.position(session.id.as_str());
        if i < self.sessions.len() {
            self.sessions.set(i, session);
        } else {
            self.sessions.push(session);
        }
        id
    }

    /// Removes the session with this id, returning it.
    pub fn remove(&mut self, session_id: &str) -> (r: Option<OperatorSession>)
        requires
            old(self).wf(),
        ensures
            final(self).wf(),
            final(self).thresholds_v() == old(self).thresholds_v(),
            ({
                let i = session_index(old(self).sessions_v(), session_id@) as int;
                match r {
                    Some(s) => i < old(self).sessions_v().len() && s == old(self).sessions_v()[i]
                        && final(self).sessions_v() == old(self).sessions_v().remove(i),
                    None => i >= old(self).sessions_v().len() && final(self).sessions_v() == old(self).sessions_v(),
                }
            }),
    {
        let i = self.position(session_id);
        if i < self.sessions.len() {
            let ghost v = self.sessions@;
            let s = self.sessions.remove(i);
            proof {
                assert forall|a: int, b: int| 0 <= a < b < self.sessions@.len() implies self.sessions@[a].id@
                    != self.sessions@[b].id@ by {
                    let a2 = if a < i { a } else { a + 1 };
                    let b2 = if b < i { b } else { b + 1 };
                    assert(self.sessions@[a] == v[a2]);
                    assert(self.sessions@[b] == v[b2]);
                }
            }
            Some(s)
        } else {
            None
        }
    }

    /// A copy of the session with this id.
    pub fn get(&self, session_id: &str) -> (r: Option<OperatorSession>)
        ensures
            ({
                let i = session_index(self.sessions_v(), session_id@) as int;
                match r {
                    Some(s) => i < self.sessions_v().len() && session_view(s) == session_view(self.sessions_v()[i]),
                    None => i >= self.sessions_v().len(),
                }
            }),
    {
        let i = self.position(session_id);
        if i < self.sessions.len() {
            Some(copy_session(&self.sessions[i]))
        } else {
            None
        }
    }

    /// Records a heartbeat now for the session with this id; false when no
    /// session has it. The session becomes active; nothing else changes.
    pub fn heartbeat(&mut self, session_id: &str) -> (found: bool)
        requires
            old(self).wf(),
        ensures
            final(self).wf(),
            final(self).thresholds_v() == old(self).thresholds_v(),
            final(self).sessions_v().len() == old(self).sessions_v().len(),
            ({
                let i = session_index(old(self).sessions_v(), session_id@) as int;
                &&& found == (i < old(self).sessions_v().len())
                &&& forall|j: int|
                    0 <= j < old(self).sessions_v().len() && j != i ==> #[trigger] final(self).sessions_v()[j]
                        == old(self).sessions_v()[j]
                &&& found ==> {
                    let s = final(self).sessions_v()[i];
                    let o = old(self).sessions_v()[i];
                    &&& s.status == SessionStatus::Active
                    &&& s.id == o.id
                    &&& s.display_name == o.display_name
                    &&& s.kind == o.kind
                    &&& s.role == o.role
                    &&& s.joined_at == o.joined_at
                    &&& s.location == o.location
                }
            }),
    {
        let i = self.position(session_id);
        if i < self.sessions.len() {
            let ghost v = self.sessions@;
            self.sessions[i].heartbeat();
            proof {
                assert forall|a: int, b: int| 0 <= a < b < self.sessions@.len() implies self.sessions@[a].id@
                    != self.sessions@[b].id@ by {
                    assert(self.sessions@[a].id == v[a].id);
                    assert(self.sessions@[b].id == v[b].id);
                }
            }
            true
        } else {
            false
        }
    }

    /// Recomputes every session's presence at time `now` (RFC 3339) and
    /// returns copies of all sessions.
    pub fn list_at(&mut self, now: &str) -> (r: Vec<OperatorSession>)
        requires
            old(self).wf(),
        ensures
            final(self).wf(),
            final(self).thresholds_v() == old(self).thresholds_v(),
            final(self).sessions_v() == refreshed_all(old(self).sessions_v(), now@, old(self).thresholds_v()),
            r@.len() == final(self).sessions_v().len(),
            forall|i: int| 0 <= i < r@.len() ==> session_view(#[trigger] r@[i]) == session_view(final(self).sessions_v()[i]),
    {
        let ghost v = self.sessions@;
        let t = self.thresholds;
        let n = self.sessions.len();
        let mut r: Vec<OperatorSession> = Vec::new();
        let mut i: usize = 0;
        while i < n
            invariant
                n == v.len(),
                i <= n,
                self.sessions@.len() == n,
                self.thresholds == t,
                t == old(self).thresholds,
                v == old(self).sessions@,
                forall|k: int| 0 <= k < i ==> #[trigger] self.sessions@[k] == refreshed(v[k], now@, t),
                forall|k: int| i <= k < n ==> #[trigger] self.sessions@[k] == v[k],
                r@.len() == i,
                forall|k: int| 0 <= k < i ==> session_view(#[trigger] r@[k]) == session_view(self.sessions@[k]),
            decreases n - i,
        {
            let st = self.sessions[i].compute_status(now, t.idle_secs, t.disconnect_secs);
            let ghost before = self.sessions@;
            self.sessions[i].status = st;
            assert(self.sessions@[i as int] == refreshed(v[i as int], now@, t));
            r.push(copy_session(&self.sessions[i]));
            i = i + 1;
        }
        proof {
            assert(self.sessions@ =~= refreshed_all(v, now@, t));
            assert forall|a: int, b: int| 0 <= a < b < self.sessions@.len() implies self.sessions@[a].id@
                != self.sessions@[b].id@ by {
                assert(self.sessions@[a].id == v[a].id);
                assert(self.sessions@[b].id == v[b].id);
            }
        }
        r
    }

    /// Recomputes every session's presence now and returns copies of all
    /// sessions.
    pub fn list(&mut self) -> (r: Vec<OperatorSession>)
        requires
            old(self).wf(),
        ensures
            final(self).wf(),
            final(self).thresholds_v() == old(self).thresholds_v(),
            exists|now: Seq<char>|
                final(self).sessions_v() == #[trigger] refreshed_all(old(self).sessions_v(), now, old(self).thresholds_v()),
            r@.len() == final(self).sessions_v().len(),
            forall|i: int| 0 <= i < r@.len() ==> session_view(#[trigger] r@[i]) == session_view(final(self).sessions_v()[i]),
    {
        let now = now_rfc3339();
        self.list_at(now.as_str())
    }

    /// Recomputes presence now and returns the sessions not disconnected.
    pub fn list_active(&mut self) -> (r: Vec<OperatorSession>)
        requires
            old(self).wf(),
        ensures
            final(self).wf(),
            final(self).thresholds_v() == old(self).thresholds_v(),
            exists|now: Seq<char>|
                final(self).sessions_v() == #[trigger] refreshed_all(old(self).sessions_v(), now, old(self).thresholds_v()),
            forall|i: int| 0 <= i < r@.len() ==> (#[trigger] r@[i]).status != SessionStatus::Disconnected,
            r@.len() <= final(self).sessions_v().len(),
    {
        let all = self.list();
        let mut r: Vec<OperatorSession> = Vec::new();
        let mut i: usize = 0;
        while i < all.len()
            invariant
                i <= all@.len(),
                r@.len() <= i,
                forall|k: int| 0 <= k < r@.len() ==> (#[trigger] r@[k]).status != SessionStatus::Disconnected,
            decreases all@.len() - i,
        {
            if all[i].status != SessionStatus::Disconnected {
                r.push(copy_session(&all[i]));
            }
            i = i + 1;
        }
        r
    }

    /// The numbers of human and of AI sessions.
    pub fn counts_by_kind(&self) -> (c: (usize, usize))
        ensures
            c.0 == count_kind(self.sessions_v(), SessionKind::Human),
            c.1 == count_kind(self.sessions_v(), SessionKind::Ai),
    {
        let ghost v = self.sessions@;
        let mut humans: usize = 0;
        let mut ais: usize = 0;
        let mut i: usize = 0;
        while i < self.sessions.len()
            invariant
                i <= self.sessions@.len(),
                v == self.sessions@,
                humans == count_kind(v.subrange(0, i as int), SessionKind::Human),
                ais == count_kind(v.subrange(0, i as int), SessionKind::Ai),
                humans <= i,
                ais <= i,
            decreases self.sessions@.len() - i,
        {
            assert(v.subrange(0, i + 1).drop_last() =~= v.subrange(0, i as int));
            assert(v.subrange(0, i + 1).last() == v[i as int]);
            if self.sessions[i].kind == SessionKind::Human {
                humans = humans + 1;
            }
            if self.sessions[i].kind == SessionKind::Ai {
                ais = ais + 1;
            }
            i = i + 1;
        }
        assert(v.subrange(0, v.len() as int) =~= v);
        (humans, ais)
    }

    /// Removes the sessions disconnected at time `now` (RFC 3339); returns
    /// how many left.
    pub fn prune_stale_at(&mut self, now: &str) -> (n: usize)
        requires
            old(self).wf(),
        ensures
            final(self).wf(),
            final(self).thresholds_v() == old(self).thresholds_v(),
            final(self).sessions_v() == connected_at(old(self).sessions_v(), now@, old(self).thresholds_v()),
            n == old(self).sessions_v().len() - final(self).sessions_v().len(),
    {
        let ghost v = self.sessions@;
        let t = self.thresholds;
        let before = self.sessions.len();
        let mut rest: Vec<OperatorSession> = Vec::new();
        std::mem::swap(&mut rest, &mut self.sessions);
        let mut kept: Vec<OperatorSession> = Vec::new();
        let ghost mut taken: int = 0;
        let ghost mut idx: Seq<int> = Seq::empty();
        while rest.len() > 0
            invariant
                0 <= taken <= v.len(),
                rest@ == v.subrange(taken, v.len() as int),
                kept@ == connected_at(v.subrange(0, taken), now@, t),
                kept@.len() <= taken,
                idx.len() == kept@.len(),
                forall|k: int| 0 <= k < idx.len() ==> 0 <= #[trigger] idx[k] < taken && kept@[k] == v[idx[k]],
                forall|a: int, b: int| 0 <= a < b < idx.len() ==> idx[a] < idx[b],
                ids_unique(v),
            decreases rest@.len(),
        {
            let ghost rv = rest@;
            let s = rest.remove(0);
            proof {
                assert(rest@ =~= v.subrange(taken + 1, v.len() as int));
                assert(rv[0] == v[taken]);
                assert(v.subrange(0, taken + 1).drop_last() =~= v.subrange(0, taken));
                assert(v.subrange(0, taken + 1).last() == v[taken]);
            }
            let st = s.compute_status(now, t.idle_secs, t.disconnect_secs);
            if st != SessionStatus::Disconnected {
                kept.push(s);
                proof {
                    idx = idx.push(taken);
                }
            }
            proof {
                taken = taken + 1;
            }
        }
        proof {
            assert(v.subrange(0, v.len() as int) =~= v);
            assert forall|a: int, b: int| 0 <= a < b < kept@.len() implies kept@[a].id@ != kept@[b].id@ by {
                assert(idx[a] < idx[b]);
            }
        }
        let n = kept.len();
        self.sessions = kept;
        before - n
    }

    /// Removes the sessions disconnected now; returns how many left.
    pub fn prune_stale(&mut self) -> (n: usize)
        requires
            old(self).wf(),
        ensures
            final(self).wf(),
            final(self).thresholds_v() == old(self).thresholds_v(),
            exists|now: Seq<char>|
                final(self).sessions_v() == connected_at(old(self).sessions_v(), now, old(self).thresholds_v()),
            n == old(self).sessions_v().len() - final(self).sessions_v().len(),
    {
        let now = now_rfc3339();
        self.prune_stale_at(now.as_str())
    }

    /// The number of sessions.
    pub fn len(&self) -> (n: usize)
        ensures
            n == self.sessions_v().len(),
    {
        self.sessions.len()
    }

    /// Whether the registry is empty.
    pub fn is_empty(&self) -> (b: bool)
        ensures
            b == (self.sessions_v().len() == 0),
    {
        self.sessions.len() == 0
    }
}

} // verus!
