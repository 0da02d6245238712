//! The command: what is to be removed, and how a run over it begins.

use vstd::prelude::*;
use crate::entry::{ResolvedToolVersion, ResolvedView};
use crate::listing::{coordinate, final_order, spans_backends, ResolutionError};
use crate::protocol::{opening, valid};
use crate::matcher::Origin;
use crate::resolve::{
    declared_entries, lookup_at, requested, resolve_specifier, Lookup, LookupView,
};
use crate::session::Session;
use crate::specifier::{SpecifierView, ToolSpecifier};

verus! {

/// Removes installed tool versions.
#[derive(Clone, Debug, PartialEq, Eq)]
pub struct Uninstall {
    /// The tools to remove.
    pub installed_tool: Vec<ToolSpecifier>,
    /// Whether all installed versions are to go.
    pub all: bool,
    /// Whether removals are only simulated.
    pub dry_run: bool,
}

/// Once the specifiers up to `position` have failed on an unknown
/// backend, all of them fail on it.
proof fn unknown_backend_stops(
    specifiers: Seq<SpecifierView>,
    lookups: Seq<LookupView>,
    position: int,
)
    requires
        0 <= position < specifiers.len(),
        requested(specifiers.take(position + 1), lookups) is Err,
    ensures
        requested(specifiers, lookups) == requested(specifiers.take(position + 1), lookups),
    decreases specifiers.len(),
{
    if position + 1 == specifiers.len() {
        assert(specifiers.take(position + 1) =~= specifiers);
    } else {
        assert(specifiers.drop_last().take(position + 1) =~= specifiers.take(position + 1));
        unknown_backend_stops(specifiers.drop_last(), lookups, position);
    }
}

impl Uninstall {
    /// Whether the versions to remove are those that the declared toolset
    /// lists as installed: so it is when all are to go and no tool is
    /// named. Otherwise they are resolved from the named tools.
    pub fn selects_declared(&self) -> (declared: bool)
        ensures
            declared == (self.installed_tool@.len() == 0 && self.all),
    {
        self.installed_tool.len() == 0 && self.all
    }

    /// The entries for what the declared toolset lists as installed: one
    /// for each pair of a backend's name and a version, in their order.
    pub fn get_all_tool_versions(&self, listed: &Vec<(String, String)>) -> (found: Vec<
        ResolvedToolVersion,
    >)
        ensures
            found.deep_view() == declared_entries(listed.deep_view()),
    {
        let ghost entries = declared_entries(listed.deep_view());
        let mut found: Vec<ResolvedToolVersion> = Vec::new();
        let mut i: usize = 0;
        while i < listed.len()
            invariant
                i <= listed.len(),
                entries == declared_entries(listed.deep_view()),
                found.deep_view() == entries.take(i as int),
            decreases listed.len() - i,
        {
            let ghost so_far = found.deep_view();
            found.push(
                ResolvedToolVersion::new(
                    listed[i].0.clone(),
                    listed[i].1.clone(),
                    Origin::Declared,
                ),
            );
            assert(found.deep_view() =~= so_far.push(entries[i as int]));
            assert(entries.take(i + 1) =~= so_far.push(entries[i as int]));
            i = i + 1;
        }
        assert(entries.take(i as int) =~= entries);
        found
    }

    /// The candidates of the named tools, in their order, given what the
    /// registry and the backends report for each: `lookups` holds the
    /// report for the tool at the same position. Fails at the first tool
    /// whose backend is unknown, or that has no report.
    pub fn get_requested_tool_versions(&self, lookups: &Vec<Lookup>) -> (outcome: Result<
        Vec<ResolvedToolVersion>,
        ResolutionError,
    >)
        ensures
            match outcome {
                Ok(found) => requested(self.installed_tool.deep_view(), lookups.deep_view())
                    == Ok::<Seq<ResolvedView>, Seq<char>>(found.deep_view()),
                Err(error) => {
                    &&& error matches ResolutionError::UnknownBackend(name)
                    &&& requested(self.installed_tool.deep_view(), lookups.deep_view())
                        == Err::<Seq<ResolvedView>, Seq<char>>(name@)
                },
            },
    {
        let ghost specifiers = self.installed_tool.deep_view();
        let ghost reports = lookups.deep_view();
        let mut found: Vec<ResolvedToolVersion> = Vec::new();
        let mut i: usize = 0;
        assert(specifiers.take(0) =~= Seq::empty());
        assert(found.deep_view() =~= Seq::empty());
        while i < self.installed_tool.len()
            invariant
                i <= self.installed_tool.len(),
                specifiers == self.installed_tool.deep_view(),
                reports == lookups.deep_view(),
                requested(specifiers.take(i as int), reports) == Ok::<
                    Seq<ResolvedView>,
                    Seq<char>,
                >(found.deep_view()),
            decreases self.installed_tool.len() - i,
        {
            let specifier = &self.installed_tool[i];
            let unknown = Lookup::Unknown;
            let lookup = if i < lookups.len() {
                &lookups[i]
            } else {
                &unknown
            };
            proof {
                assert(specifiers.take(i + 1).drop_last() =~= specifiers.take(i as int));
                assert(specifiers.take(i + 1).last() == specifier@);
                assert(lookup@ == lookup_at(reports, i as int));
            }
            match resolve_specifier(specifier, lookup) {
                Err(error) => {
                    proof {
                        unknown_backend_stops(specifiers, reports, i as int);
                    }
                    return Err(error);
                },
                Ok(more) => {
                    let ghost so_far = found.deep_view();
                    let mut j: usize = 0;
                    while j < more.len()
                        invariant
                            j <= more.len(),
                            found.deep_view() == so_far + more.deep_view().take(j as int),
                        decreases more.len() - j,
                    {
                        let ghost before = found.deep_view();
                        found.push(more[j].duplicate());
                        assert(found.deep_view() =~= before.push(more.deep_view()[j as int]));
                        assert(more.deep_view().take(j + 1) =~= more.deep_view().take(
                            j as int,
                        ).push(more.deep_view()[j as int]));
                        j = j + 1;
                    }
                    assert(more.deep_view().take(j as int) =~= more.deep_view());
                },
            }
            i = i + 1;
        }
        assert(specifiers.take(i as int) =~= specifiers);
        Ok(found)
    }

    /// Begins the run over what resolution found. The entries are brought
    /// into the final list: duplicates removed, in listing order. Entries
    /// of several backends are refused unless all versions are to go, and
    /// then there is no run.
    pub fn run(&self, found: Vec<ResolvedToolVersion>) -> (outcome: Result<
        Session,
        ResolutionError,
    >)
        ensures
            match outcome {
                Ok(session) => {
                    &&& self.all || !spans_backends(found.deep_view())
                    &&& final_order(session@.entries, found.deep_view())
                    &&& session@.dry_run == self.dry_run
                    &&& session@.phase == opening(session@.entries.len())
                    &&& session@.cause == Seq::<char>::empty()
                    &&& valid(session@)
                },
                Err(error) => {
                    &&& error matches ResolutionError::Ambiguous
                    &&& !self.all
                    &&& spans_backends(found.deep_view())
                },
            },
    {
        match coordinate(found, self.all) {
            Ok(listed) => Ok(Session::begin(listed, self.dry_run)),
            Err(error) => Err(error),
        }
    }
}

} // verus!
