//! Identifiers used throughout the desk.

use vstd::prelude::*;

verus! {

/// Identifier of a policy.
pub type PolicyId = String;

/// A value that becomes a text.
pub trait IntoText {
    /// The characters of the text it becomes.
    spec fn text_view(&self) -> Seq<char>;

    /// The text.
    fn into_text(self) -> (s: String)
        ensures
            s@ == self.text_view(),
    ;
}

impl IntoText for String {
    open spec fn text_view(&self) -> Seq<char> {
        self@
    }

    fn into_text(self) -> (s: String) {
        self
    }
}

impl<'a> IntoText for &'a str {
    open spec fn text_view(&self) -> Seq<char> {
        (*self)@
    }

    fn into_text(self) -> (s: String) {
        String::from_str(self)
    }
}

/// The kind or category of an event.
#[derive(Debug, Clone, PartialEq, Eq, Hash)]
pub struct EventKind(pub String);

impl EventKind {
    /// An event kind with the given text.
    pub fn new<S: IntoText>(kind: S) -> (k: Self)
        ensures
            k.0@ == kind.text_view(),
    {
        EventKind(kind.into_text())
    }

    /// The text of the kind.
    pub fn as_str(&self) -> (s: &str)
        ensures
            s@ == self.0@,
    {
        self.0.as_str()
    }

    /// The text of the kind, as `Display` renders it.
    pub fn to_string(&self) -> (s: String)
        ensures
            s@ == self.0@,
    {
        crate::text::copy_string(&self.0)
    }
}

impl From<String> for EventKind {
    fn from(s: String) -> (k: Self) {
        EventKind(s)
    }
}

impl vstd::std_specs::convert::FromSpecImpl<String> for EventKind {
    open spec fn obeys_from_spec() -> bool {
        true
    }

    open spec fn from_spec(v: String) -> Self {
        EventKind(v)
    }
}

impl<'a> vstd::std_specs::convert::FromSpecImpl<&'a str> for EventKind {
    open spec fn obeys_from_spec() -> bool {
        false
    }

    open spec fn from_spec(v: &'a str) -> Self {
        arbitrary()
    }
}

impl<'a> From<&'a str> for EventKind {
    fn from(s: &'a str) -> (k: Self)
        ensures
            k.0@ == s@,
    {
        EventKind(String::from_str(s))
    }
}

impl<'a> AsRef<str> for EventKind {
    fn as_ref(&self) -> (s: &str)
        ensures
            s@ == self.0@,
    {
        self.0.as_str()
    }
}

/// A generic resource identifier.
#[derive(Debug, Clone, PartialEq, Eq, Hash)]
pub struct ResourceId(pub String);

impl ResourceId {
    /// A resource identifier with the given text.
    pub fn new<S: IntoText>(kind: S) -> (r: Self)
        ensures
            r.0@ == kind.text_view(),
    {
        ResourceId(kind.into_text())
    }

    /// The text of the identifier.
    pub fn as_str(&self) -> (s: &str)
        ensures
            s@ == self.0@,
    {
        self.0.as_str()
    }

    /// The text of the identifier, as `Display` renders it.
    pub fn to_string(&self) -> (s: String)
        ensures
            s@ == self.0@,
    {
        crate::text::copy_string(&self.0)
    }
}

impl From<String> for ResourceId {
    fn from(s: String) -> (r: Self) {
        ResourceId(s)
    }
}

impl vstd::std_specs::convert::FromSpecImpl<String> for ResourceId {
    open spec fn obeys_from_spec() -> bool {
        true
    }

    open spec fn from_spec(v: String) -> Self {
        ResourceId(v)
    }
}

impl<'a> vstd::std_specs::convert::FromSpecImpl<&'a str> for ResourceId {
    open spec fn obeys_from_spec() -> bool {
        false
    }

    open spec fn from_spec(v: &'a str) -> Self {
        arbitrary()
    }
}

impl<'a> From<&'a str> for ResourceId {
    fn from(s: &'a str) -> (r: Self)
        ensures
            r.0@ == s@,
    {
        ResourceId(String::from_str(s))
    }
}

impl<'a> AsRef<str> for ResourceId {
    fn as_ref(&self) -> (s: &str)
        ensures
            s@ == self.0@,
    {
        self.0.as_str()
    }
}

} // verus!
