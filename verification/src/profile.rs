//! Profiles: the multi-tenant namespaces that own agents, recipes,
//! credentials and policies.

use vstd::prelude::*;
use vstd::utf8::encode_utf8;
use crate::clock::now_rfc3339;
use crate::symbolic_program::str_eq;
use crate::text::{copy_string, trim, trim_str};

verus! {

/// A multi-tenant namespace, such as a user account or an organization.
#[derive(Debug, Clone, PartialEq, Eq)]
pub struct Profile {
    /// Unique identifier.
    pub id: u128,
    /// Optional friendly name.
    pub name: Option<String>,
    /// Kind of profile, such as "user" or "organization".
    pub kind: String,
    /// When the profile was created (RFC 3339).
    pub created_at: String,
    /// When the profile was last updated (RFC 3339).
    pub updated_at: String,
    /// Status, such as "active" or "suspended".
    pub status: String,
}

/// The status a new profile gets.
pub open spec fn default_status() -> Seq<char> {
    "active"@
}

/// The statuses a valid profile may have.
pub open spec fn known_status(s: Seq<char>) -> bool {
    s == "active"@ || s == "suspended"@ || s == "deleted"@
}

/// The first rule that the profile breaks, as its message: a blank kind,
/// a blank name, a name over 255 bytes, an unknown status.
pub open spec fn profile_fault(kind: Seq<char>, name: Option<Seq<char>>, status: Seq<char>) -> Option<Seq<char>> {
    if trim(kind).len() == 0 {
        Some("Profile kind cannot be empty"@)
    } else if name is Some && trim(name->0).len() == 0 {
        Some("Profile name cannot be empty if provided"@)
    } else if name is Some && encode_utf8(name->0).len() > 255 {
        Some("Profile name cannot exceed 255 characters"@)
    } else if !known_status(status) {
        Some("Invalid profile status"@)
    } else {
        None
    }
}

/// The name of a profile, as text.
pub open spec fn name_view(name: Option<String>) -> Option<Seq<char>> {
    match name {
        Some(n) => Some(n@),
        None => None,
    }
}

impl Profile {
    /// A new active profile, created and updated now.
    pub fn new(id: u128, name: Option<String>, kind: String) -> (p: Self)
        ensures
            p.id == id,
            p.name == name,
            p.kind == kind,
            p.status@ == default_status(),
            p.created_at@ == p.updated_at@,
    {
        let now = now_rfc3339();
        let updated_at = copy_string(&now);
        Profile { id, name, kind, created_at: now, updated_at, status: String::from_str("active") }
    }

    /// Replaces the name and stamps the update time.
    pub fn update_name(&mut self, name: Option<String>)
        ensures
            final(self).name == name,
            final(self).id == old(self).id,
            final(self).kind == old(self).kind,
            final(self).status == old(self).status,
            final(self).created_at == old(self).created_at,
    {
        self.name = name;
        self.updated_at = now_rfc3339();
    }

    /// Replaces the status and stamps the update time.
    pub fn update_status(&mut self, status: String)
        ensures
            final(self).status == status,
            final(self).id == old(self).id,
            final(self).name == old(self).name,
            final(self).kind == old(self).kind,
            final(self).created_at == old(self).created_at,
    {
        self.status = status;
        self.updated_at = now_rfc3339();
    }

    /// Whether the status is "active".
    pub fn is_active(&self) -> (b: bool)
        ensures
            b == (self.status@ == "active"@),
    {
        str_eq(self.status.as_str(), "active")
    }

    /// Whether the status is "suspended".
    pub fn is_suspended(&self) -> (b: bool)
        ensures
            b == (self.status@ == "suspended"@),
    {
        str_eq(self.status.as_str(), "suspended")
    }

    /// Checks the profile: a non-blank kind, a name (when given) that is
    /// not blank and at most 255 bytes, and a known status; the message of
    /// the first rule broken otherwise.
    pub fn validate(&self) -> (r: Result<(), String>)
        ensures
            match r {
                Ok(()) => profile_fault(self.kind@, name_view(self.name), self.status@) is None,
                Err(m) => profile_fault(self.kind@, name_view(self.name), self.status@) == Some(m@),
            },
    {
        if trim_str(self.kind.as_str()).unicode_len() == 0 {
            return Err(String::from_str("Profile kind cannot be empty"));
        }
        match &self.name {
            Some(name) => {
                if trim_str(name.as_str()).unicode_len() == 0 {
                    return Err(String::from_str("Profile name cannot be empty if provided"));
                }
                if name.as_str().as_bytes().len() > 255 {
                    return Err(String::from_str("Profile name cannot exceed 255 characters"));
                }
            },
            None => {},
        }
        let s = self.status.as_str();
        if !(str_eq(s, "active") || str_eq(s, "suspended") || str_eq(s, "deleted")) {
            return Err(String::from_str("Invalid profile status"));
        }
        Ok(())
    }
}

/// A new profile is active, not suspended, and its status passes
/// validation: only its kind and name can make it invalid.
pub proof fn law_new_profile_status(p: Profile)
    requires
        p.status@ == default_status(),
    ensures
        p.status@ == "active"@,
        p.status@ != "suspended"@,
        known_status(p.status@),
        profile_fault(p.kind@, name_view(p.name), p.status@) is None <==> (trim(p.kind@).len() > 0 && match p.name {
            Some(n) => trim(n@).len() > 0 && encode_utf8(n@).len() <= 255,
            None => true,
        }),
{
    assert("active"@ != "suspended"@) by {
        reveal_strlit("active");
        reveal_strlit("suspended");
        assert("active"@.len() != "suspended"@.len());
    }
}

} // verus!
