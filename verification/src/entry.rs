//! Resolved tool versions, their identity, and the order in which they are
//! listed.

use vstd::prelude::*;
use vstd::string::StringExecFns;
use crate::matcher::Origin;
use crate::specifier::SEPARATOR;
use crate::text::{
    before, text_before, text_before_connected, text_before_irreflexive, text_before_transitive,
};

verus! {

/// One installed version of one backend's tool, selected for removal.
#[derive(Clone, Debug, PartialEq, Eq)]
pub struct ResolvedToolVersion {
    pub backend: String,
    pub version: String,
    pub origin: Origin,
}

/// A resolved tool version as plain text.
pub struct ResolvedView {
    pub backend: Seq<char>,
    pub version: Seq<char>,
    pub origin: Origin,
}

impl View for ResolvedToolVersion {
    type V = ResolvedView;

    open spec fn view(&self) -> ResolvedView {
        ResolvedView { backend: self.backend@, version: self.version@, origin: self.origin }
    }
}

impl DeepView for ResolvedToolVersion {
    type V = ResolvedView;

    open spec fn deep_view(&self) -> ResolvedView {
        self@
    }
}

/// Two entries name the same version of the same backend's tool.
pub open spec fn same_identity(a: ResolvedView, b: ResolvedView) -> bool {
    a.backend == b.backend && a.version == b.version
}

/// `a` is listed before `b`: by backend name, then by version.
pub open spec fn identity_before(a: ResolvedView, b: ResolvedView) -> bool {
    text_before(a.backend, b.backend) || (a.backend == b.backend && text_before(
        a.version,
        b.version,
    ))
}

/// The text by which an entry is shown: the backend's name, the separator,
/// the version.
pub open spec fn label_of(entry: ResolvedView) -> Seq<char> {
    entry.backend.push(SEPARATOR) + entry.version
}

/// No entry is listed before one of its own identity.
pub proof fn identity_before_irreflexive(a: ResolvedView, b: ResolvedView)
    requires
        same_identity(a, b),
    ensures
        !identity_before(a, b),
{
    text_before_irreflexive(a.backend);
    text_before_irreflexive(a.version);
}

/// The listing order is transitive.
pub proof fn identity_before_transitive(a: ResolvedView, b: ResolvedView, c: ResolvedView)
    requires
        identity_before(a, b),
        identity_before(b, c),
    ensures
        identity_before(a, c),
{
    if text_before(a.backend, b.backend) && text_before(b.backend, c.backend) {
        text_before_transitive(a.backend, b.backend, c.backend);
    }
    if a.backend == b.backend && b.backend == c.backend {
        text_before_transitive(a.version, b.version, c.version);
    }
}

/// Of two entries, one is listed before the other unless they share an
/// identity; and never both ways.
pub proof fn identity_before_total(a: ResolvedView, b: ResolvedView)
    ensures
        same_identity(a, b) || identity_before(a, b) || identity_before(b, a),
        !(identity_before(a, b) && identity_before(b, a)),
{
    if a.backend != b.backend {
        text_before_connected(a.backend, b.backend);
    } else if a.version != b.version {
        text_before_connected(a.version, b.version);
    }
    if identity_before(a, b) && identity_before(b, a) {
        identity_before_transitive(a, b, a);
        identity_before_irreflexive(a, a);
    }
}

impl ResolvedToolVersion {
    /// An entry for `version` of `backend`'s tool.
    pub fn new(backend: String, version: String, origin: Origin) -> (entry: ResolvedToolVersion)
        ensures
            entry@ == (ResolvedView { backend: backend@, version: version@, origin }),
    {
        ResolvedToolVersion { backend, version, origin }
    }

    /// A copy of this entry.
    pub fn duplicate(&self) -> (entry: ResolvedToolVersion)
        ensures
            entry@ == self@,
    {
        ResolvedToolVersion {
            backend: self.backend.clone(),
            version: self.version.clone(),
            origin: self.origin,
        }
    }

    /// The backend's name and the version, by which entries are told apart.
    pub fn identity(&self) -> (key: (String, String))
        ensures
            key.0@ == self@.backend,
            key.1@ == self@.version,
    {
        (self.backend.clone(), self.version.clone())
    }

    /// Whether this entry is listed before `other`.
    pub fn precedes(&self, other: &ResolvedToolVersion) -> (first: bool)
        ensures
            first == identity_before(self@, other@),
    {
        if before(self.backend.as_str(), other.backend.as_str()) {
            true
        } else if self.backend == other.backend {
            before(self.version.as_str(), other.version.as_str())
        } else {
            false
        }
    }

    /// The text by which this entry is shown, such as `node@18.0.0`.
    pub fn label(&self) -> (text: String)
        ensures
            text@ == label_of(self@),
    {
        let mut text = self.backend.clone();
        text.append("@");
        text.append(self.version.as_str());
        proof {
            reveal_strlit("@");
            assert("@"@ =~= seq![SEPARATOR]);
            assert(text@ =~= label_of(self@));
        }
        text
    }
}

} // verus!
