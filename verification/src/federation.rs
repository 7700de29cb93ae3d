//! Federation between desks: peer records, event kinds, the dispatch log and
//! the overview of the local desk.

use vstd::prelude::*;
use vstd::utf8::encode_utf8;
use crate::clock::{now_rfc3339, random_uuid_text};
use crate::text::{copy_string, decimal, decimal_string, push_char, push_str, trim, trim_str};

verus! {

/// Failures of the federation layer.
#[derive(Debug, Clone, PartialEq, Eq)]
pub enum FederationError {
    /// A peer was not found in the registry.
    PeerNotFound(String),
    /// A peer with the same id already exists.
    PeerAlreadyExists(String),
    /// Peer validation failed.
    PeerValidation(String),
    /// Outbound dispatch failed.
    DispatchFailed { peer_id: String, message: String },
    /// Serialization of an event failed.
    Serialization(String),
    /// The dispatch log entry was not found.
    LogEntryNotFound(String),
}

impl FederationError {
    /// Whether this is the peer-not-found failure.
    pub fn is_peer_not_found(&self) -> (b: bool)
        ensures
            b == (self is PeerNotFound),
    {
        match self {
            FederationError::PeerNotFound(_) => true,
            _ => false,
        }
    }
}

/// Whether `url::Url::parse` accepts a text.
pub uninterp spec fn url_parses(s: Seq<char>) -> bool;

/// Calls `url::Url::parse` and reports whether it succeeded.
///
/// Trusted: the answer depends on the text alone, named by `url_parses`.
#[verifier::external_body]
fn url_is_valid(s: &str) -> (b: bool)
    ensures
        b == url_parses(s@),
{
    url::Url::parse(s).is_ok()
}

/// A trusted remote desk.
#[derive(Debug, Clone, PartialEq, Eq)]
pub struct PeerDesk {
    /// Stable identifier, unique within the registry.
    pub id: String,
    /// Human-readable name.
    pub name: String,
    /// Base endpoint URL.
    pub endpoint_url: String,
    /// Bearer token for outbound dispatches.
    pub auth_token: String,
    /// Trust score, 0 to 100.
    pub trust_score: u8,
    /// Whether outbound dispatch is enabled.
    pub enabled: bool,
    /// Tags for grouping.
    pub tags: Vec<String>,
    /// When the peer was registered.
    pub created_at: String,
    /// When the peer was last updated.
    pub updated_at: String,
}

/// The first rule a peer breaks, given whether its endpoint parses as a URL.
pub open spec fn peer_fault(p: PeerDesk, url_ok: bool) -> Option<Seq<char>> {
    if trim(p.id@).len() == 0 || encode_utf8(p.id@).len() > 64 {
        Some("peer id must be 1–64 characters"@)
    } else if trim(p.name@).len() == 0 || encode_utf8(p.name@).len() > 128 {
        Some("peer name must be 1–128 characters"@)
    } else if !url_ok {
        Some("endpoint_url must be a valid URL"@)
    } else if encode_utf8(trim(p.auth_token@)).len() < 8 {
        Some("auth_token must be at least 8 characters"@)
    } else if p.trust_score > 100 {
        Some("trust_score must be 0–100"@)
    } else {
        None
    }
}

/// Checks a peer's fields given whether its endpoint parses as a URL.
pub fn validate_peer(peer: &PeerDesk, url_ok: bool) -> (r: Result<(), FederationError>)
    ensures
        match peer_fault(*peer, url_ok) {
            Some(m) => r matches Err(e) && (e matches FederationError::PeerValidation(s) && s@ == m),
            None => r is Ok,
        },
{
    let id = trim_str(peer.id.as_str());
    if id.as_str().unicode_len() == 0 || peer.id.as_str().as_bytes().len() > 64 {
        return Err(FederationError::PeerValidation(String::from_str("peer id must be 1–64 characters")));
    }
    let name = trim_str(peer.name.as_str());
    if name.as_str().unicode_len() == 0 || peer.name.as_str().as_bytes().len() > 128 {
        return Err(FederationError::PeerValidation(String::from_str("peer name must be 1–128 characters")));
    }
    if !url_ok {
        return Err(FederationError::PeerValidation(String::from_str("endpoint_url must be a valid URL")));
    }
    let token = trim_str(peer.auth_token.as_str());
    if token.as_str().as_bytes().len() < 8 {
        return Err(FederationError::PeerValidation(String::from_str("auth_token must be at least 8 characters")));
    }
    if peer.trust_score > 100 {
        return Err(FederationError::PeerValidation(String::from_str("trust_score must be 0–100")));
    }
    Ok(())
}

/// `v` without its trailing slashes.
pub open spec fn strip_trailing_slashes(v: Seq<char>) -> Seq<char>
    decreases v.len(),
{
    if v.len() > 0 && v.last() == '/' {
        strip_trailing_slashes(v.drop_last())
    } else {
        v
    }
}

/// The path peers receive events on.
pub open spec fn receive_path() -> Seq<char> {
    "/api/v1/federation/receive"@
}

impl PeerDesk {
    /// Checks the peer's fields, in order: id, name, endpoint URL, token, trust.
    pub fn validate(&self) -> (r: Result<(), FederationError>)
        ensures
            match peer_fault(*self, url_parses(self.endpoint_url@)) {
                Some(m) => r matches Err(e) && (e matches FederationError::PeerValidation(s) && s@ == m),
                None => r is Ok,
            },
    {
        let ok = url_is_valid(self.endpoint_url.as_str());
        validate_peer(self, ok)
    }

    /// The URL events are posted to: the endpoint without trailing slashes,
    /// then the receive path.
    pub fn receive_url(&self) -> (s: String)
        ensures
            s@ == strip_trailing_slashes(self.endpoint_url@) + receive_path(),
    {
        let cs = crate::text::chars_of(self.endpoint_url.as_str());
        let mut n = cs.len();
        proof {
            assert(cs@.subrange(0, cs@.len() as int) =~= cs@);
        }
        while n > 0 && cs[n - 1] == '/'
            invariant
                n <= cs@.len(),
                strip_trailing_slashes(cs@) == strip_trailing_slashes(cs@.subrange(0, n as int)),
            decreases n,
        {
            proof {
                assert(cs@.subrange(0, n as int).drop_last() =~= cs@.subrange(0, n as int - 1));
            }
            n = n - 1;
        }
        proof {
            assert(cs@.subrange(0, cs@.len() as int) =~= cs@);
        }
        let mut s = crate::text::string_from_chars(vstd::slice::slice_subrange(cs.as_slice(), 0, n));
        push_str(&mut s, "/api/v1/federation/receive");
        s
    }
}

/// Filters for listing peers.
#[derive(Debug, Clone)]
pub struct PeerRegistryQuery {
    /// Only peers with this enabled state.
    pub enabled: Option<bool>,
    /// Only peers with this tag.
    pub tag: Option<String>,
}

impl Default for PeerRegistryQuery {
    fn default() -> (q: Self)
        ensures
            q.enabled is None,
            q.tag is None,
    {
        PeerRegistryQuery { enabled: None, tag: None }
    }
}

/// The kind of intelligence event shared with peers.
#[derive(Debug, Clone, Copy, PartialEq, Eq, Structural)]
pub enum FederationEventKind {
    CaseEscalated,
    CaseOpened,
    WatchlistHit,
    EvidenceIngested,
    ClaimReviewed,
    AutopilotProposal,
    ManualBroadcast,
}

/// The event type string of a kind.
pub open spec fn event_type_spec(k: FederationEventKind) -> Seq<char> {
    match k {
        FederationEventKind::CaseEscalated => "helix.case.escalated"@,
        FederationEventKind::CaseOpened => "helix.case.opened"@,
        FederationEventKind::WatchlistHit => "helix.watchlist.hit"@,
        FederationEventKind::EvidenceIngested => "helix.evidence.ingested"@,
        FederationEventKind::ClaimReviewed => "helix.claim.reviewed"@,
        FederationEventKind::AutopilotProposal => "helix.autopilot.proposal"@,
        FederationEventKind::ManualBroadcast => "helix.federation.broadcast"@,
    }
}

impl FederationEventKind {
    /// The CloudEvents `type` string of this kind.
    pub fn event_type(&self) -> (s: &'static str)
        ensures
            s@ == event_type_spec(*self),
    {
        match self {
            FederationEventKind::CaseEscalated => "helix.case.escalated",
            FederationEventKind::CaseOpened => "helix.case.opened",
            FederationEventKind::WatchlistHit => "helix.watchlist.hit",
            FederationEventKind::EvidenceIngested => "helix.evidence.ingested",
            FederationEventKind::ClaimReviewed => "helix.claim.reviewed",
            FederationEventKind::AutopilotProposal => "helix.autopilot.proposal",
            FederationEventKind::ManualBroadcast => "helix.federation.broadcast",
        }
    }
}

/// A CloudEvents-style event posted to peer desks.
#[derive(Debug, Clone, PartialEq, Eq)]
pub struct FederationEvent {
    pub specversion: String,
    pub id: String,
    pub event_type: String,
    pub source_desk_id: String,
    pub target_desk_id: String,
    pub title: String,
    pub summary: String,
    pub content: String,
    pub url: Option<String>,
    pub observed_at: String,
    pub kind: FederationEventKind,
    pub trust_score: u8,
    pub entity_labels: Vec<String>,
    pub tags: Vec<String>,
    pub case_id: Option<String>,
    pub watchlist_id: Option<String>,
}

impl FederationEvent {
    /// A broadcast event of the given kind from `source_desk_id`, with a fresh
    /// `fed-` id, observed now.
    pub fn new(
        source_desk_id: &str,
        kind: FederationEventKind,
        title: &str,
        summary: &str,
        content: &str,
        trust_score: u8,
    ) -> (e: Self)
        ensures
            e.specversion@ == "1.0"@,
            e.id@.len() >= 4 && e.id@.subrange(0, 4) == "fed-"@,
            e.event_type@ == event_type_spec(kind),
            e.source_desk_id@ == source_desk_id@,
            e.target_desk_id@ == "*"@,
            e.title@ == title@,
            e.summary@ == summary@,
            e.content@ == content@,
            e.url is None,
            e.kind == kind,
            e.trust_score == trust_score,
            e.entity_labels@.len() == 0,
            e.tags@.len() == 0,
            e.case_id is None,
            e.watchlist_id is None,
    {
        let now = now_rfc3339();
        let mut id = String::from_str("fed-");
        proof {
            reveal_strlit("fed-");
        }
        let u = random_uuid_text();
        push_str(&mut id, u.as_str());
        assert(id@.subrange(0, 4) =~= "fed-"@);
        FederationEvent {
            specversion: String::from_str("1.0"),
            id,
            event_type: String::from_str(kind.event_type()),
            source_desk_id: String::from_str(source_desk_id),
            target_desk_id: String::from_str("*"),
            title: String::from_str(title),
            summary: String::from_str(summary),
            content: String::from_str(content),
            url: None,
            observed_at: now,
            kind,
            trust_score,
            entity_labels: Vec::new(),
            tags: Vec::new(),
            case_id: None,
            watchlist_id: None,
        }
    }
}

/// The delivery status of a dispatch.
#[derive(Debug, Clone, Copy, PartialEq, Eq, Structural)]
pub enum DispatchStatus {
    /// Delivered.
    Delivered,
    /// The peer answered with an error status.
    Failed,
    /// The peer could not be reached.
    Unreachable,
}

/// One dispatch attempt.
#[derive(Debug, Clone, PartialEq, Eq)]
pub struct DispatchLogEntry {
    pub id: String,
    pub event_id: String,
    pub peer_id: String,
    pub peer_endpoint: String,
    pub event_kind: String,
    pub event_title: String,
    pub status: DispatchStatus,
    pub http_status: Option<u16>,
    pub error_message: Option<String>,
    pub latency_ms: u64,
    pub dispatched_at: String,
}

/// What came back from posting an event to a peer.
pub enum DispatchOutcome {
    /// The peer answered with this status; `success` when it is a 2xx status;
    /// `body` is the response text (empty when unreadable).
    Responded { status: u16, success: bool, body: String },
    /// The peer could not be reached; the transport error's message.
    Unreachable(String),
}

/// The first `n` characters of `v`.
pub open spec fn take_chars(v: Seq<char>, n: nat) -> Seq<char> {
    if v.len() <= n {
        v
    } else {
        v.subrange(0, n as int)
    }
}

/// The log entry for a dispatch outcome: delivered on a success status,
/// failed with `HTTP <status>: <body>` (at most 512 characters) on another
/// status, unreachable with the transport error otherwise.
pub open spec fn entry_ok(
    e: DispatchLogEntry,
    event: FederationEvent,
    peer: PeerDesk,
    outcome: DispatchOutcome,
    latency_ms: u64,
    dispatched_at: Seq<char>,
) -> bool {
    &&& e.id@.len() >= 4 && e.id@.subrange(0, 4) == "log-"@
    &&& e.event_id@ == event.id@
    &&& e.peer_id@ == peer.id@
    &&& e.peer_endpoint@ == peer.endpoint_url@
    &&& e.event_kind@ == event.event_type@
    &&& e.event_title@ == event.title@
    &&& e.latency_ms == latency_ms
    &&& e.dispatched_at@ == dispatched_at
    &&& match outcome {
        DispatchOutcome::Responded { status, success, body } => {
            &&& e.http_status == Some(status)
            &&& if success {
                e.status == DispatchStatus::Delivered && e.error_message is None
            } else {
                &&& e.status == DispatchStatus::Failed
                &&& e.error_message matches Some(m) && m@ == take_chars(
                    "HTTP "@ + decimal(status as nat) + ": "@ + body@,
                    512,
                )
            }
        },
        DispatchOutcome::Unreachable(msg) => {
            &&& e.status == DispatchStatus::Unreachable
            &&& e.http_status is None
            &&& e.error_message matches Some(m) && m@ == msg@
        },
    }
}

/// The log entry recording a dispatch of `event` to `peer` (see `entry_ok`).
pub fn dispatch_entry(
    event: &FederationEvent,
    peer: &PeerDesk,
    outcome: DispatchOutcome,
    latency_ms: u64,
    dispatched_at: String,
) -> (e: DispatchLogEntry)
    ensures
        entry_ok(e, *event, *peer, outcome, latency_ms, dispatched_at@),
{
    let mut id = String::from_str("log-");
    proof {
        reveal_strlit("log-");
    }
    let u = random_uuid_text();
    push_str(&mut id, u.as_str());
    assert(id@.subrange(0, 4) =~= "log-"@);
    let (status, http_status, error_message) = match outcome {
        DispatchOutcome::Responded { status, success, body } => {
            if success {
                (DispatchStatus::Delivered, Some(status), None)
            } else {
                let mut m = String::from_str("HTTP ");
                let d = decimal_string(status as usize);
                push_str(&mut m, d.as_str());
                push_str(&mut m, ": ");
                push_str(&mut m, body.as_str());
                let cs = crate::text::chars_of(m.as_str());
                let k = if cs.len() <= 512 { cs.len() } else { 512 };
                let t = crate::text::string_from_chars(vstd::slice::slice_subrange(cs.as_slice(), 0, k));
                proof {
                    if cs@.len() <= 512 {
                        assert(cs@.subrange(0, k as int) =~= cs@);
                    }
                }
                (DispatchStatus::Failed, Some(status), Some(t))
            }
        },
        DispatchOutcome::Unreachable(msg) => (DispatchStatus::Unreachable, None, Some(msg)),
    };
    DispatchLogEntry {
        id,
        event_id: copy_string(&event.id),
        peer_id: copy_string(&peer.id),
        peer_endpoint: copy_string(&peer.endpoint_url),
        event_kind: copy_string(&event.event_type),
        event_title: copy_string(&event.title),
        status,
        http_status,
        error_message,
        latency_ms,
        dispatched_at,
    }
}

/// A log entry with its texts taken as character sequences.
pub struct EntryView {
    pub id: Seq<char>,
    pub event_id: Seq<char>,
    pub peer_id: Seq<char>,
    pub peer_endpoint: Seq<char>,
    pub event_kind: Seq<char>,
    pub event_title: Seq<char>,
    pub status: DispatchStatus,
    pub http_status: Option<u16>,
    pub error_message: Option<Seq<char>>,
    pub latency_ms: u64,
    pub dispatched_at: Seq<char>,
}

pub open spec fn entry_view(e: DispatchLogEntry) -> EntryView {
    EntryView {
        id: e.id@,
        event_id: e.event_id@,
        peer_id: e.peer_id@,
        peer_endpoint: e.peer_endpoint@,
        event_kind: e.event_kind@,
        event_title: e.event_title@,
        status: e.status,
        http_status: e.http_status,
        error_message: match e.error_message {
            Some(m) => Some(m@),
            None => None,
        },
        latency_ms: e.latency_ms,
        dispatched_at: e.dispatched_at@,
    }
}

/// A copy of a log entry.
pub fn copy_entry(e: &DispatchLogEntry) -> (r: DispatchLogEntry)
    ensures
        entry_view(r) == entry_view(*e),
{
    DispatchLogEntry {
        id: copy_string(&e.id),
        event_id: copy_string(&e.event_id),
        peer_id: copy_string(&e.peer_id),
        peer_endpoint: copy_string(&e.peer_endpoint),
        event_kind: copy_string(&e.event_kind),
        event_title: copy_string(&e.event_title),
        status: e.status,
        http_status: e.http_status,
        error_message: match &e.error_message {
            Some(m) => Some(copy_string(m)),
            None => None,
        },
        latency_ms: e.latency_ms,
        dispatched_at: copy_string(&e.dispatched_at),
    }
}

/// The log after appending `x` with capacity `cap`: the oldest entry leaves
/// when the log is at capacity.
pub open spec fn log_append<T>(v: Seq<T>, cap: nat, x: T) -> Seq<T> {
    if v.len() >= cap && v.len() > 0 {
        v.drop_first().push(x)
    } else {
        v.push(x)
    }
}

/// A bounded log of recent dispatch attempts, oldest first.
pub struct DispatchLog {
    entries: Vec<DispatchLogEntry>,
    capacity: usize,
}

impl DispatchLog {
    /// The entries, oldest first.
    pub closed spec fn entries_view(&self) -> Seq<DispatchLogEntry> {
        self.entries@
    }

    pub closed spec fn capacity_view(&self) -> nat {
        self.capacity as nat
    }

    /// An empty log with the given capacity.
    pub fn new(capacity: usize) -> (l: Self)
        ensures
            l.entries_view().len() == 0,
            l.capacity_view() == capacity,
    {
        DispatchLog { entries: Vec::new(), capacity }
    }

    /// Appends an entry, evicting the oldest when at capacity.
    pub fn append(&mut self, entry: DispatchLogEntry)
        ensures
            final(self).entries_view() == log_append(old(self).entries_view(), old(self).capacity_view(), entry),
            final(self).capacity_view() == old(self).capacity_view(),
    {
        if self.entries.len() >= self.capacity && self.entries.len() > 0 {
            self.entries.remove(0);
        }
        self.entries.push(entry);
        proof {
            let o = old(self).entries@;
            if o.len() >= self.capacity && o.len() > 0 {
                assert(o.remove(0) =~= o.drop_first());
            }
        }
    }

    /// The most recent `n` entries, newest first.
    pub fn recent(&self, n: usize) -> (r: Vec<DispatchLogEntry>)
        ensures
            r@.len() == if n < self.entries_view().len() { n as nat } else { self.entries_view().len() },
            forall|i: int|
                0 <= i < r@.len() ==> entry_view(r@[i]) == entry_view(self.entries_view()[self.entries_view().len() - 1 - i]),
    {
        let mut r: Vec<DispatchLogEntry> = Vec::new();
        let len = self.entries.len();
        let mut i: usize = 0;
        while i < n && i < len
            invariant
                len == self.entries@.len(),
                i <= len,
                i <= n,
                r@.len() == i,
                forall|k: int| 0 <= k < i ==> entry_view(r@[k]) == entry_view(self.entries@[len - 1 - k]),
            decreases len - i,
        {
            r.push(copy_entry(&self.entries[len - 1 - i]));
            i = i + 1;
        }
        r
    }

    /// The number of entries.
    pub fn len(&self) -> (n: usize)
        ensures
            n == self.entries_view().len(),
    {
        self.entries.len()
    }

    /// Whether the log is empty.
    pub fn is_empty(&self) -> (b: bool)
        ensures
            b == (self.entries_view().len() == 0),
    {
        self.entries.len() == 0
    }
}


/// Whether a peer passes a registry query: the enabled state when one is
/// asked for, and the tag when one is asked for.
pub open spec fn peer_matches(q: PeerRegistryQuery, p: PeerDesk) -> bool {
    &&& (q.enabled matches Some(want) ==> p.enabled == want)
    &&& (q.tag matches Some(t) ==> p.tags@.map_values(|s: String| s@).contains(t@))
}

fn has_tag(tags: &Vec<String>, t: &str) -> (b: bool)
    ensures
        b == tags@.map_values(|s: String| s@).contains(t@),
{
    let mut i: usize = 0;
    while i < tags.len()
        invariant
            i <= tags@.len(),
            forall|k: int| 0 <= k < i ==> tags@[k]@ != t@,
        decreases tags@.len() - i,
    {
        if crate::symbolic_program::str_eq(tags[i].as_str(), t) {
            assert(tags@.map_values(|s: String| s@)[i as int] == t@);
            return true;
        }
        i = i + 1;
    }
    proof {
        let tv = tags@.map_values(|s: String| s@);
        assert forall|k: int| 0 <= k < tv.len() implies tv[k] != t@ by {
            assert(tv[k] == tags@[k]@);
        }
    }
    false
}

/// Whether a peer passes a registry query (see `peer_matches`).
pub fn matches_query(query: &PeerRegistryQuery, peer: &PeerDesk) -> (b: bool)
    ensures
        b == peer_matches(*query, *peer),
{
    let enabled_ok = match query.enabled {
        Some(want) => peer.enabled == want,
        None => true,
    };
    let tag_ok = match &query.tag {
        Some(t) => has_tag(&peer.tags, t.as_str()),
        None => true,
    };
    enabled_ok && tag_ok
}

/// The number of enabled peers.
pub open spec fn enabled_count(ps: Seq<PeerDesk>) -> nat
    decreases ps.len(),
{
    if ps.len() == 0 {
        0
    } else {
        enabled_count(ps.drop_last()) + if ps.last().enabled { 1nat } else { 0nat }
    }
}

/// The number of entries with the given status.
pub open spec fn status_count(es: Seq<DispatchLogEntry>, st: DispatchStatus) -> nat
    decreases es.len(),
{
    if es.len() == 0 {
        0
    } else {
        status_count(es.drop_last(), st) + if es.last().status == st { 1nat } else { 0nat }
    }
}

/// Federation status of the local desk.
#[derive(Debug, Clone)]
pub struct FederationStatus {
    pub desk_id: String,
    pub peer_count: usize,
    pub enabled_peer_count: usize,
    pub total_dispatches: usize,
    pub successful_dispatches: usize,
    pub failed_dispatches: usize,
    pub federation_enabled: bool,
}

/// Overview of the local desk: its peers and its status.
#[derive(Debug, Clone)]
pub struct FederationOverview {
    pub desk_id: String,
    pub peers: Vec<PeerDesk>,
    pub status: FederationStatus,
}

fn count_enabled(ps: &Vec<PeerDesk>) -> (n: usize)
    ensures
        n == enabled_count(ps@),
{
    let mut n: usize = 0;
    let mut i: usize = 0;
    while i < ps.len()
        invariant
            i <= ps@.len(),
            n <= i,
            n == enabled_count(ps@.subrange(0, i as int)),
        decreases ps@.len() - i,
    {
        proof {
            assert(ps@.subrange(0, i as int + 1).drop_last() =~= ps@.subrange(0, i as int));
        }
        if ps[i].enabled {
            n = n + 1;
        }
        i = i + 1;
    }
    assert(ps@.subrange(0, ps@.len() as int) =~= ps@);
    n
}

fn count_status(es: &Vec<DispatchLogEntry>, st: DispatchStatus) -> (n: usize)
    ensures
        n == status_count(es@, st),
{
    let mut n: usize = 0;
    let mut i: usize = 0;
    while i < es.len()
        invariant
            i <= es@.len(),
            n <= i,
            n == status_count(es@.subrange(0, i as int), st),
        decreases es@.len() - i,
    {
        proof {
            assert(es@.subrange(0, i as int + 1).drop_last() =~= es@.subrange(0, i as int));
        }
        if es[i].status == st {
            n = n + 1;
        }
        i = i + 1;
    }
    assert(es@.subrange(0, es@.len() as int) =~= es@);
    n
}

/// The overview of a desk from its peers and its recent dispatch entries:
/// counts of peers, enabled peers, dispatches, deliveries and failures;
/// federation is enabled when some peer is.
pub fn overview_of(desk_id: &str, peers: Vec<PeerDesk>, entries: &Vec<DispatchLogEntry>) -> (o: FederationOverview)
    ensures
        o.desk_id@ == desk_id@,
        o.peers == peers,
        o.status.desk_id@ == desk_id@,
        o.status.peer_count == peers@.len(),
        o.status.enabled_peer_count == enabled_count(peers@),
        o.status.total_dispatches == entries@.len(),
        o.status.successful_dispatches == status_count(entries@, DispatchStatus::Delivered),
        o.status.failed_dispatches == status_count(entries@, DispatchStatus::Failed),
        o.status.federation_enabled == (enabled_count(peers@) > 0),
{
    let peer_count = peers.len();
    let enabled = count_enabled(&peers);
    let total = entries.len();
    let ok = count_status(entries, DispatchStatus::Delivered);
    let failed = count_status(entries, DispatchStatus::Failed);
    FederationOverview {
        desk_id: String::from_str(desk_id),
        peers,
        status: FederationStatus {
            desk_id: String::from_str(desk_id),
            peer_count,
            enabled_peer_count: enabled,
            total_dispatches: total,
            successful_dispatches: ok,
            failed_dispatches: failed,
            federation_enabled: enabled > 0,
        },
    }
}


/// The log after appending each of `xs`, in order, to an empty log of capacity `cap`.
pub open spec fn log_fill<T>(cap: nat, xs: Seq<T>) -> Seq<T>
    decreases xs.len(),
{
    if xs.len() == 0 {
        Seq::empty()
    } else {
        log_append(log_fill(cap, xs.drop_last()), cap, xs.last())
    }
}

/// A dispatch log of capacity `cap > 0` holds the last `min(n, cap)` of the
/// `n` entries appended to it, oldest first.
pub proof fn law_dispatch_log_keeps_latest<T>(cap: nat, xs: Seq<T>)
    requires
        cap > 0,
    ensures
        log_fill(cap, xs) == xs.subrange(if xs.len() > cap { xs.len() - cap } else { 0 }, xs.len() as int),
    decreases xs.len(),
{
    if xs.len() > 0 {
        let p = xs.drop_last();
        law_dispatch_log_keeps_latest(cap, p);
        let f = log_fill(cap, p);
        let sp: int = if p.len() > cap { p.len() - cap } else { 0 };
        assert(f == p.subrange(sp, p.len() as int));
        if f.len() >= cap && f.len() > 0 {
            assert(f.drop_first().push(xs.last()) =~= xs.subrange(xs.len() - cap, xs.len() as int));
        } else {
            assert(f.push(xs.last()) =~= xs.subrange(if xs.len() > cap { xs.len() - cap } else { 0 }, xs.len() as int));
        }
    } else {
        assert(xs.subrange(0, 0) =~= Seq::<T>::empty());
    }
}

} // verus!
