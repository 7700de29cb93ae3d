//! The registry of trusted peer desks: one peer per id, kept in ascending
//! id order, each validated before it enters.

use vstd::prelude::*;
use vstd::utf8::encode_utf8;
use crate::federation::{FederationError, PeerDesk, PeerRegistryQuery, peer_fault, url_parses, peer_matches, matches_query};
use crate::order::{lex_lt, lex_less, bytes_eq, lemma_lex_irreflexive, lemma_lex_transitive, lemma_lex_total};
use crate::text::copy_string;

verus! {

/// The bytes a peer is ordered and found by: its id in UTF-8.
pub open spec fn peer_key(p: PeerDesk) -> Seq<u8> {
    encode_utf8(p.id@)
}

/// Peers in strictly ascending id order (so no id occurs twice).
pub open spec fn ids_ascending(v: Seq<PeerDesk>) -> bool {
    forall|i: int, j: int| 0 <= i < j < v.len() ==> lex_lt(peer_key(#[trigger] v[i]), peer_key(#[trigger] v[j]))
}

/// A peer with its texts taken as character sequences.
pub open spec fn peer_view(p: PeerDesk) -> (Seq<char>, Seq<char>, Seq<char>, Seq<char>, u8, bool, Seq<Seq<char>>, Seq<char>, Seq<char>) {
    (
        p.id@,
        p.name@,
        p.endpoint_url@,
        p.auth_token@,
        p.trust_score,
        p.enabled,
        p.tags@.map_values(|t: String| t@),
        p.created_at@,
        p.updated_at@,
    )
}

/// A copy of a peer.
pub fn copy_peer(p: &PeerDesk) -> (c: PeerDesk)
    ensures
        peer_view(c) == peer_view(*p),
        peer_key(c) == peer_key(*p),
{
    let mut tags: Vec<String> = Vec::new();
    let mut i: usize = 0;
    while i < p.tags.len()
        invariant
            i <= p.tags@.len(),
            tags@.len() == i,
            forall|k: int| 0 <= k < i ==> (#[trigger] tags@[k])@ == p.tags@[k]@,
        decreases p.tags@.len() - i,
    {
        tags.push(copy_string(&p.tags[i]));
        i = i + 1;
    }
    let c = PeerDesk {
        id: copy_string(&p.id),
        name: copy_string(&p.name),
        endpoint_url: copy_string(&p.endpoint_url),
        auth_token: copy_string(&p.auth_token),
        trust_score: p.trust_score,
        enabled: p.enabled,
        tags,
        created_at: copy_string(&p.created_at),
        updated_at: copy_string(&p.updated_at),
    };
    assert(c.tags@.map_values(|t: String| t@) =~= p.tags@.map_values(|t: String| t@));
    c
}

/// Peers taken as views.
pub open spec fn peers_view(v: Seq<PeerDesk>) -> Seq<(Seq<char>, Seq<char>, Seq<char>, Seq<char>, u8, bool, Seq<Seq<char>>, Seq<char>, Seq<char>)> {
    v.map_values(|p: PeerDesk| peer_view(p))
}

/// The peers a query selects, in order.
pub open spec fn selected(v: Seq<PeerDesk>, q: PeerRegistryQuery) -> Seq<PeerDesk>
    decreases v.len(),
{
    if v.len() == 0 {
        Seq::empty()
    } else if peer_matches(q, v.last()) {
        selected(v.drop_last(), q).push(v.last())
    } else {
        selected(v.drop_last(), q)
    }
}

/// The enabled peers, in order.
pub open spec fn enabled_of(v: Seq<PeerDesk>) -> Seq<PeerDesk>
    decreases v.len(),
{
    if v.len() == 0 {
        Seq::empty()
    } else if v.last().enabled {
        enabled_of(v.drop_last()).push(v.last())
    } else {
        enabled_of(v.drop_last())
    }
}

/// The peers of a desk, by id.
pub struct PeerRegistry {
    peers: Vec<PeerDesk>,
}

impl PeerRegistry {
    /// The peers, in ascending id order.
    pub closed spec fn peers_v(&self) -> Seq<PeerDesk> {
        self.peers@
    }

    /// The registry's invariant: ascending ids, so one peer per id.
    pub open spec fn wf(&self) -> bool {
        ids_ascending(self.peers_v())
    }

    /// An empty registry.
    pub fn new() -> (r: Self)
        ensures
            r.wf(),
            r.peers_v().len() == 0,
    {
        PeerRegistry { peers: Vec::new() }
    }

    /// The position where `key` belongs: the first peer whose id is not below it.
    fn lower_bound(&self, key: &[u8]) -> (i: usize)
        requires
            self.wf(),
        ensures
            i <= self.peers_v().len(),
            forall|k: int| 0 <= k < i ==> lex_lt(peer_key(#[trigger] self.peers_v()[k]), key@),
            i < self.peers_v().len() ==> !lex_lt(peer_key(self.peers_v()[i as int]), key@),
    {
        let mut i: usize = 0;
        while i < self.peers.len()
            invariant
                i <= self.peers@.len(),
                forall|k: int| 0 <= k < i ==> lex_lt(peer_key(#[trigger] self.peers@[k]), key@),
            decreases self.peers@.len() - i,
        {
            let b = self.peers[i].id.as_str().as_bytes();
            if !lex_less(b, key) {
                return i;
            }
            i = i + 1;
        }
        i
    }

    /// The position of the peer with this id, if any.
    fn position(&self, id: &str) -> (r: Option<usize>)
        requires
            self.wf(),
        ensures
            match r {
                Some(i) => i < self.peers_v().len() && self.peers_v()[i as int].id@ == id@,
                None => forall|k: int| 0 <= k < self.peers_v().len() ==> #[trigger] self.peers_v()[k].id@ != id@,
            },
    {
        let key = id.as_bytes();
        let i = self.lower_bound(key);
        if i < self.peers.len() && bytes_eq(self.peers[i].id.as_str().as_bytes(), key) {
            proof {
                vstd::utf8::encode_utf8_decode_utf8(self.peers@[i as int].id@);
                vstd::utf8::encode_utf8_decode_utf8(id@);
            }
            return Some(i);
        }
        proof {
            assert forall|k: int| 0 <= k < self.peers_v().len() implies #[trigger] self.peers_v()[k].id@ != id@ by {
                if self.peers_v()[k].id@ == id@ {
                    if k < i {
                        lemma_lex_irreflexive(key@);
                    } else if k == i {
                    } else {
                        lemma_lex_total(peer_key(self.peers_v()[i as int]), key@);
                        if peer_key(self.peers_v()[i as int]) != key@ {
                            lemma_lex_transitive(key@, peer_key(self.peers_v()[i as int]), key@);
                            lemma_lex_irreflexive(key@);
                        }
                    }
                }
            }
        }
        None
    }

    /// Puts a peer at its place by id, replacing the peer with the same id.
    fn put(&mut self, peer: PeerDesk)
        requires
            old(self).wf(),
        ensures
            final(self).wf(),
            put_ok(old(self).peers_v(), peer, final(self).peers_v()),
    {
        let key = peer.id.as_str().as_bytes();
        let i = self.lower_bound(key);
        let ghost v = self.peers@;
        let ghost pk = peer_key(peer);
        if i < self.peers.len() && bytes_eq(self.peers[i].id.as_str().as_bytes(), key) {
            self.peers.set(i, peer);
            proof {
                assert(forall|k: int| 0 <= k < v.len() ==> #[trigger] peer_key(self.peers@[k]) == peer_key(v[k]));
                assert(put_at(v, pk, i as int));
            }
        } else {
            self.peers.insert(i, peer);
            proof {
                let w = self.peers@;
                if i < v.len() {
                    lemma_lex_total(peer_key(v[i as int]), pk);
                }
                assert forall|a: int, b: int| 0 <= a < b < w.len() implies lex_lt(
                    peer_key(#[trigger] w[a]),
                    peer_key(#[trigger] w[b]),
                ) by {
                    if b < i {
                        assert(w[a] == v[a] && w[b] == v[b]);
                    } else if b == i {
                        assert(w[a] == v[a]);
                    } else if a < i {
                        assert(w[a] == v[a] && w[b] == v[b - 1]);
                        lemma_lex_total(peer_key(v[i as int]), pk);
                        if b - 1 > i {
                            lemma_lex_transitive(pk, peer_key(v[i as int]), peer_key(v[b - 1]));
                        }
                        lemma_lex_transitive(peer_key(v[a]), pk, peer_key(v[b - 1]));
                    } else if a == i {
                        assert(w[b] == v[b - 1]);
                        if b - 1 > i {
                            lemma_lex_transitive(pk, peer_key(v[i as int]), peer_key(v[b - 1]));
                        }
                    } else {
                        assert(w[a] == v[a - 1] && w[b] == v[b - 1]);
                    }
                }
                assert(put_at(v, pk, i as int));
            }
        }
    }

    /// A registry holding the given peers; a later peer replaces an earlier
    /// one with the same id.
    pub fn from_peers(peers: Vec<PeerDesk>) -> (r: Self)
        ensures
            r.wf(),
            forall|k: int| 0 <= k < r.peers_v().len() ==> #[trigger] last_given(peers@, peers@.len() as int, r.peers_v()[k]),
            forall|i: int|
                0 <= i < peers@.len() && #[trigger] last_with_key(peers@, i, peers@.len() as int) ==> r.peers_v().contains(
                    peers@[i],
                ),
    {
        let ghost all = peers@;
        assert(all.len() == peers.len());
        let mut r = PeerRegistry::new();
        let mut rest = peers;
        let mut n: usize = 0;
        assert(rest@ == all.subrange(0, all.len() as int));
        while rest.len() > 0
            invariant
                r.wf(),
                n + rest@.len() == all.len(),
                all.len() <= usize::MAX,
                rest@ == all.subrange(n as int, all.len() as int),
                forall|k: int| 0 <= k < r.peers_v().len() ==> #[trigger] last_given(all, n as int, r.peers_v()[k]),
                forall|i: int|
                    0 <= i < n && #[trigger] last_with_key(all, i, n as int) ==> r.peers_v().contains(all[i]),
            decreases rest@.len(),
        {
            let ghost v = r.peers_v();
            let p = rest.remove(0);
            assert(p == all[n as int]);
            r.put(p);
            proof {
                lemma_put_entries_last(all, n as int, v, r.peers_v());
                lemma_put_holds_last(all, n as int, v, r.peers_v());
            }
            assert(rest@ =~= all.subrange(n + 1, all.len() as int));
            n = n + 1;
        }
        assert(n == all.len());
        r
    }

    /// Validates a peer, then inserts or replaces it; returns a copy.
    pub fn upsert(&mut self, peer: PeerDesk) -> (r: Result<PeerDesk, FederationError>)
        requires
            old(self).wf(),
        ensures
            final(self).wf(),
            match peer_fault(peer, url_parses(peer.endpoint_url@)) {
                Some(m) => (r matches Err(e) && (e matches FederationError::PeerValidation(s) && s@ == m))
                    && final(self).peers_v() == old(self).peers_v(),
                None => (r matches Ok(c) && peer_view(c) == peer_view(peer)) && put_ok(
                    old(self).peers_v(),
                    peer,
                    final(self).peers_v(),
                ),
            },
    {
        match peer.validate() {
            Err(e) => Err(e),
            Ok(()) => {
                let c = copy_peer(&peer);
                self.put(peer);
                Ok(c)
            },
        }
    }

    /// Removes the peer with this id; `PeerNotFound` when none has it.
    pub fn remove(&mut self, id: &str) -> (r: Result<PeerDesk, FederationError>)
        requires
            old(self).wf(),
        ensures
            final(self).wf(),
            match r {
                Ok(p) => exists|i: int|
                    0 <= i < old(self).peers_v().len() && old(self).peers_v()[i] == p && p.id@ == id@
                        && final(self).peers_v() == old(self).peers_v().remove(i),
                Err(e) => (e matches FederationError::PeerNotFound(s) && s@ == id@) && final(self).peers_v()
                    == old(self).peers_v() && forall|k: int|
                    0 <= k < old(self).peers_v().len() ==> #[trigger] old(self).peers_v()[k].id@ != id@,
            },
    {
        match self.position(id) {
            Some(i) => {
                let ghost v = self.peers@;
                let p = self.peers.remove(i);
                proof {
                    assert forall|a: int, b: int| 0 <= a < b < self.peers@.len() implies lex_lt(
                        peer_key(#[trigger] self.peers@[a]),
                        peer_key(#[trigger] self.peers@[b]),
                    ) by {
                        let a2 = if a < i { a } else { a + 1 };
                        let b2 = if b < i { b } else { b + 1 };
                        assert(self.peers@[a] == v[a2]);
                        assert(self.peers@[b] == v[b2]);
                    }
                }
                Ok(p)
            },
            None => Err(FederationError::PeerNotFound(String::from_str(id))),
        }
    }

    /// A copy of the peer with this id.
    pub fn get(&self, id: &str) -> (r: Option<PeerDesk>)
        requires
            self.wf(),
        ensures
            match r {
                Some(p) => exists|i: int|
                    0 <= i < self.peers_v().len() && peer_view(p) == peer_view(self.peers_v()[i])
                        && self.peers_v()[i].id@ == id@,
                None => forall|k: int| 0 <= k < self.peers_v().len() ==> #[trigger] self.peers_v()[k].id@ != id@,
            },
    {
        match self.position(id) {
            Some(i) => Some(copy_peer(&self.peers[i])),
            None => None,
        }
    }

    /// Copies of the peers the query selects, in id order.
    pub fn list(&self, query: &PeerRegistryQuery) -> (r: Vec<PeerDesk>)
        ensures
            peers_view(r@) == peers_view(selected(self.peers_v(), *query)),
    {
        let ghost v = self.peers@;
        let mut r: Vec<PeerDesk> = Vec::new();
        let mut i: usize = 0;
        while i < self.peers.len()
            invariant
                i <= self.peers@.len(),
                v == self.peers@,
                peers_view(r@) == peers_view(selected(v.subrange(0, i as int), *query)),
            decreases self.peers@.len() - i,
        {
            assert(v.subrange(0, i + 1).drop_last() =~= v.subrange(0, i as int));
            assert(v.subrange(0, i + 1).last() == v[i as int]);
            if matches_query(query, &self.peers[i]) {
                let ghost rv = r@;
                let c = copy_peer(&self.peers[i]);
                r.push(c);
                proof {
                    let sp = selected(v.subrange(0, i as int), *query);
                    assert(peers_view(r@) =~= peers_view(rv).push(peer_view(v[i as int])));
                    assert(peers_view(sp.push(v[i as int])) =~= peers_view(sp).push(peer_view(v[i as int])));
                }
            }
            i = i + 1;
        }
        assert(v.subrange(0, v.len() as int) =~= v);
        r
    }

    /// Copies of the enabled peers, in id order.
    pub fn enabled_peers(&self) -> (r: Vec<PeerDesk>)
        ensures
            peers_view(r@) == peers_view(enabled_of(self.peers_v())),
    {
        let ghost v = self.peers@;
        let mut r: Vec<PeerDesk> = Vec::new();
        let mut i: usize = 0;
        while i < self.peers.len()
            invariant
                i <= self.peers@.len(),
                v == self.peers@,
                peers_view(r@) == peers_view(enabled_of(v.subrange(0, i as int))),
            decreases self.peers@.len() - i,
        {
            assert(v.subrange(0, i + 1).drop_last() =~= v.subrange(0, i as int));
            assert(v.subrange(0, i + 1).last() == v[i as int]);
            if self.peers[i].enabled {
                let ghost rv = r@;
                let c = copy_peer(&self.peers[i]);
                r.push(c);
                proof {
                    let sp = enabled_of(v.subrange(0, i as int));
                    assert(peers_view(r@) =~= peers_view(rv).push(peer_view(v[i as int])));
                    assert(peers_view(sp.push(v[i as int])) =~= peers_view(sp).push(peer_view(v[i as int])));
                }
            }
            i = i + 1;
        }
        assert(v.subrange(0, v.len() as int) =~= v);
        r
    }

    /// The number of peers.
    pub fn count(&self) -> (n: usize)
        ensures
            n == self.peers_v().len(),
    {
        self.peers.len()
    }

    /// The number of enabled peers.
    pub fn enabled_count(&self) -> (n: usize)
        ensures
            n == enabled_of(self.peers_v()).len(),
    {
        let ghost v = self.peers@;
        let mut n: usize = 0;
        let mut i: usize = 0;
        while i < self.peers.len()
            invariant
                i <= self.peers@.len(),
                v == self.peers@,
                n == enabled_of(v.subrange(0, i as int)).len(),
                n <= i,
            decreases self.peers@.len() - i,
        {
            assert(v.subrange(0, i + 1).drop_last() =~= v.subrange(0, i as int));
            assert(v.subrange(0, i + 1).last() == v[i as int]);
            if self.peers[i].enabled {
                n = n + 1;
            }
            i = i + 1;
        }
        assert(v.subrange(0, v.len() as int) =~= v);
        n
    }
}

/// Whether `key` belongs at position `i` of `v`: after every smaller key,
/// not after a larger or equal one.
pub open spec fn put_at(v: Seq<PeerDesk>, key: Seq<u8>, i: int) -> bool {
    &&& 0 <= i <= v.len()
    &&& forall|k: int| 0 <= k < i ==> lex_lt(peer_key(#[trigger] v[k]), key)
    &&& i < v.len() ==> !lex_lt(peer_key(v[i]), key)
}

/// `w` is `v` with `p` put at its place by id: replacing the peer with its
/// id, or inserted before the first larger id.
pub open spec fn put_ok(v: Seq<PeerDesk>, p: PeerDesk, w: Seq<PeerDesk>) -> bool {
    exists|i: int|
        put_at(v, peer_key(p), i) && w == if i < v.len() && peer_key(v[i]) == peer_key(p) {
            v.update(i, p)
        } else {
            v.insert(i, p)
        }
}

/// Peer `i` of `ps` is the last among the first `n` with its id.
pub open spec fn last_with_key(ps: Seq<PeerDesk>, i: int, n: int) -> bool {
    forall|j: int| i < j < n ==> peer_key(#[trigger] ps[j]) != peer_key(ps[i])
}

/// In ascending `v`, the only entry that can carry `pk` is at the place
/// where `pk` belongs.
proof fn lemma_key_only_at(v: Seq<PeerDesk>, pk: Seq<u8>, idx: int)
    requires
        ids_ascending(v),
        put_at(v, pk, idx),
    ensures
        forall|k: int| 0 <= k < v.len() && peer_key(#[trigger] v[k]) == pk ==> k == idx,
{
    assert forall|k: int| 0 <= k < v.len() && peer_key(#[trigger] v[k]) == pk implies k == idx by {
        if k < idx {
            lemma_lex_irreflexive(pk);
        } else if k > idx {
            assert(lex_lt(peer_key(v[idx]), peer_key(v[k])));
            lemma_lex_total(peer_key(v[idx]), pk);
            if peer_key(v[idx]) != pk {
                lemma_lex_transitive(pk, peer_key(v[idx]), pk);
            }
            lemma_lex_irreflexive(pk);
        }
    }
}

/// `x` is a peer among the first `n` that no later one of them replaces.
pub open spec fn last_given(ps: Seq<PeerDesk>, n: int, x: PeerDesk) -> bool {
    exists|i: int| 0 <= i < n && ps[i] == x && #[trigger] last_with_key(ps, i, n)
}

/// The place where the next peer goes, and whether it replaces an entry.
proof fn lemma_put_shape(v: Seq<PeerDesk>, p: PeerDesk, w: Seq<PeerDesk>) -> (r: (int, bool))
    requires
        ids_ascending(v),
        put_ok(v, p, w),
    ensures
        put_at(v, peer_key(p), r.0),
        r.1 == (r.0 < v.len() && peer_key(v[r.0]) == peer_key(p)),
        r.1 ==> w == v.update(r.0, p),
        !r.1 ==> w == v.insert(r.0, p),
        forall|k: int| 0 <= k < v.len() && peer_key(#[trigger] v[k]) == peer_key(p) ==> r.1 && k == r.0,
{
    let pk = peer_key(p);
    let idx = choose|i: int|
        put_at(v, pk, i) && w == if i < v.len() && peer_key(v[i]) == pk {
            v.update(i, p)
        } else {
            v.insert(i, p)
        };
    lemma_key_only_at(v, pk, idx);
    (idx, idx < v.len() && peer_key(v[idx]) == pk)
}

/// After putting peer `n`, every entry is the last of its id among the
/// first `n + 1` peers.
proof fn lemma_put_entries_last(all: Seq<PeerDesk>, n: int, v: Seq<PeerDesk>, w: Seq<PeerDesk>)
    requires
        0 <= n < all.len(),
        ids_ascending(v),
        put_ok(v, all[n], w),
        forall|k: int| 0 <= k < v.len() ==> #[trigger] last_given(all, n, v[k]),
    ensures
        forall|k: int| 0 <= k < w.len() ==> #[trigger] last_given(all, n + 1, w[k]),
{
    let p = all[n];
    let (idx, replaced) = lemma_put_shape(v, p, w);
    assert(last_with_key(all, n, n + 1));
    assert forall|k: int| 0 <= k < w.len() implies #[trigger] last_given(all, n + 1, w[k]) by {
        if k == idx {
            assert(w[k] == all[n]);
        } else {
            let src: int = if replaced || k < idx {
                k
            } else {
                k - 1
            };
            assert(w[k] == v[src]);
            assert(last_given(all, n, v[src]));
            let i = choose|i: int| 0 <= i < n && all[i] == v[src] && #[trigger] last_with_key(all, i, n);
            assert(peer_key(v[src]) != peer_key(p));
            assert(last_with_key(all, i, n + 1));
        }
    }
}

/// After putting peer `n`, every peer that is the last of its id among the
/// first `n + 1` is held.
proof fn lemma_put_holds_last(all: Seq<PeerDesk>, n: int, v: Seq<PeerDesk>, w: Seq<PeerDesk>)
    requires
        0 <= n < all.len(),
        ids_ascending(v),
        put_ok(v, all[n], w),
        forall|i: int| 0 <= i < n && #[trigger] last_with_key(all, i, n) ==> v.contains(all[i]),
    ensures
        forall|i: int| 0 <= i < n + 1 && #[trigger] last_with_key(all, i, n + 1) ==> w.contains(all[i]),
{
    let p = all[n];
    let (idx, replaced) = lemma_put_shape(v, p, w);
    assert forall|i: int| 0 <= i < n + 1 && #[trigger] last_with_key(all, i, n + 1) implies w.contains(all[i]) by {
        if i == n {
            assert(w[idx] == all[n]);
        } else {
            assert(peer_key(all[n]) != peer_key(all[i]));
            assert(last_with_key(all, i, n));
            let k = choose|k: int| 0 <= k < v.len() && v[k] == all[i];
            if replaced {
                assert(k != idx);
                assert(w[k] == all[i]);
            } else if k < idx {
                assert(w[k] == all[i]);
            } else {
                assert(w[k + 1] == all[i]);
            }
        }
    }
}

/// One peer per id: two peers of a well-formed registry never share an id.
pub proof fn law_one_peer_per_id(r: PeerRegistry, i: int, j: int)
    requires
        r.wf(),
        0 <= i < r.peers_v().len(),
        0 <= j < r.peers_v().len(),
        i != j,
    ensures
        r.peers_v()[i].id@ != r.peers_v()[j].id@,
{
    let v = r.peers_v();
    if v[i].id@ == v[j].id@ {
        if i < j {
            assert(lex_lt(peer_key(v[i]), peer_key(v[j])));
        } else {
            assert(lex_lt(peer_key(v[j]), peer_key(v[i])));
        }
        lemma_lex_irreflexive(peer_key(v[i]));
    }
}

} // verus!
