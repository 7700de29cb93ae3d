//! CoPilot sessions: human or AI participants on a shared desk, their roles and
//! their presence.

use vstd::prelude::*;
use crate::clock::{now_rfc3339, random_uuid_text, age_seconds, rfc3339_age};

verus! {

/// Whether a participant is a human or an AI.
#[derive(Debug, Clone, Copy, PartialEq, Eq, Structural)]
pub enum SessionKind {
    /// A human operator.
    Human,
    /// An AI copilot.
    Ai,
}

/// What a session may do.
#[derive(Debug, Clone, Copy, PartialEq, Eq, Structural)]
pub enum SessionRole {
    /// Reads the desk only.
    Viewer,
    /// Takes intelligence actions and confirms proposals.
    Operator,
    /// Full control.
    Admin,
}

impl Default for SessionRole {
    fn default() -> (r: Self)
        ensures
            r == SessionRole::Operator,
    {
        SessionRole::Operator
    }
}

impl SessionRole {
    /// Whether the role can confirm or deny AI proposals: operators and admins.
    pub fn can_confirm(&self) -> (b: bool)
        ensures
            b == (*self == SessionRole::Operator || *self == SessionRole::Admin),
    {
        match self {
            SessionRole::Operator | SessionRole::Admin => true,
            SessionRole::Viewer => false,
        }
    }

    /// Whether the role can change the operator configuration: admins only.
    pub fn can_configure(&self) -> (b: bool)
        ensures
            b == (*self == SessionRole::Admin),
    {
        match self {
            SessionRole::Admin => true,
            _ => false,
        }
    }

    /// Whether the role can start or stop the loop: admins only.
    pub fn can_control_loop(&self) -> (b: bool)
        ensures
            b == (*self == SessionRole::Admin),
    {
        match self {
            SessionRole::Admin => true,
            _ => false,
        }
    }

    /// Whether the role can remove other sessions: admins only.
    pub fn can_manage_sessions(&self) -> (b: bool)
        ensures
            b == (*self == SessionRole::Admin),
    {
        match self {
            SessionRole::Admin => true,
            _ => false,
        }
    }
}

/// Presence of a session.
#[derive(Debug, Clone, Copy, PartialEq, Eq, Structural)]
pub enum SessionStatus {
    /// Recent heartbeat.
    Active,
    /// Past the idle threshold.
    Idle,
    /// Past the disconnect threshold.
    Disconnected,
}

impl Default for SessionStatus {
    fn default() -> (s: Self)
        ensures
            s == SessionStatus::Active,
    {
        SessionStatus::Active
    }
}

/// A participant on the desk.
#[derive(Debug, Clone)]
pub struct OperatorSession {
    /// `sess-` and a random id.
    pub id: String,
    /// Display name.
    pub display_name: String,
    /// Human or AI.
    pub kind: SessionKind,
    /// Permission level.
    pub role: SessionRole,
    /// Presence.
    pub status: SessionStatus,
    /// When the session was created (RFC 3339).
    pub joined_at: String,
    /// The last heartbeat (RFC 3339).
    pub last_heartbeat: String,
    /// Optional location.
    pub location: Option<String>,
}

/// The presence of a session whose last heartbeat is `age` seconds old.
pub open spec fn status_for_age_spec(age: i64, idle_secs: i64, disconnect_secs: i64) -> SessionStatus {
    if age >= disconnect_secs {
        SessionStatus::Disconnected
    } else if age >= idle_secs {
        SessionStatus::Idle
    } else {
        SessionStatus::Active
    }
}

/// The presence for a heartbeat `age` seconds old: disconnected past the
/// disconnect threshold, idle past the idle threshold, else active.
pub fn status_for_age(age: i64, idle_secs: i64, disconnect_secs: i64) -> (s: SessionStatus)
    ensures
        s == status_for_age_spec(age, idle_secs, disconnect_secs),
{
    if age >= disconnect_secs {
        SessionStatus::Disconnected
    } else if age >= idle_secs {
        SessionStatus::Idle
    } else {
        SessionStatus::Active
    }
}

/// The presence at `now` of a session last seen at `last`, both RFC 3339
/// times; a heartbeat that does not parse counts as just now.
pub open spec fn session_status_at(last: Seq<char>, now: Seq<char>, idle_secs: i64, disconnect_secs: i64) -> SessionStatus {
    match rfc3339_age(last, now) {
        Some(a) => status_for_age_spec(a as i64, idle_secs, disconnect_secs),
        None => status_for_age_spec(0, idle_secs, disconnect_secs),
    }
}

impl OperatorSession {
    /// A new active session with a fresh `sess-` id, joined and last seen now.
    pub fn new(display_name: String, kind: SessionKind, role: SessionRole, location: Option<String>) -> (s: Self)
        ensures
            s.id@.len() == 41 && s.id@.subrange(0, 5) == "sess-"@,
            crate::clock::is_v4_uuid_text(s.id@.subrange(5, 41)),
            s.display_name == display_name,
            s.kind == kind,
            s.role == role,
            s.status == SessionStatus::Active,
            s.joined_at@ == s.last_heartbeat@,
            s.location == location,
    {
        let now = now_rfc3339();
        let mut id = String::from_str("sess-");
        proof {
            reveal_strlit("sess-");
        }
        let u = random_uuid_text();
        crate::text::push_str(&mut id, u.as_str());
        assert(id@.subrange(0, 5) =~= "sess-"@);
        assert(id@.subrange(5, 41) =~= u@);
        OperatorSession {
            id,
            display_name,
            kind,
            role,
            status: SessionStatus::Active,
            joined_at: crate::text::copy_string(&now),
            last_heartbeat: now,
            location,
        }
    }

    /// Records a heartbeat now; the session becomes active.
    pub fn heartbeat(&mut self)
        ensures
            final(self).status == SessionStatus::Active,
            final(self).id == old(self).id,
            final(self).display_name == old(self).display_name,
            final(self).kind == old(self).kind,
            final(self).role == old(self).role,
            final(self).joined_at == old(self).joined_at,
            final(self).location == old(self).location,
    {
        self.last_heartbeat = now_rfc3339();
        self.status = SessionStatus::Active;
    }

    /// The presence at time `now` (RFC 3339) for the given thresholds: by
    /// the age of the last heartbeat, taken as 0 when a time does not parse.
    pub fn compute_status(&self, now: &str, idle_secs: i64, disconnect_secs: i64) -> (st: SessionStatus)
        ensures
            st == session_status_at(self.last_heartbeat@, now@, idle_secs, disconnect_secs),
    {
        let age: i64 = match age_seconds(self.last_heartbeat.as_str(), now) {
            Some(a) => a,
            None => 0,
        };
        status_for_age(age, idle_secs, disconnect_secs)
    }

}

/// A request to join the desk.
#[derive(Debug, Clone)]
pub struct JoinSessionRequest {
    /// Display name.
    pub display_name: String,
    /// Human or AI.
    pub kind: SessionKind,
    /// Requested role.
    pub role: SessionRole,
    /// Optional location.
    pub location: Option<String>,
}

/// Presence thresholds, in seconds.
#[derive(Debug, Clone, Copy)]
pub struct PresenceThresholds {
    /// Seconds without heartbeat before idle.
    pub idle_secs: i64,
    /// Seconds without heartbeat before disconnected.
    pub disconnect_secs: i64,
}

impl Default for PresenceThresholds {
    fn default() -> (t: Self)
        ensures
            t.idle_secs == 30,
            t.disconnect_secs == 90,
    {
        PresenceThresholds { idle_secs: 30, disconnect_secs: 90 }
    }
}

} // verus!
