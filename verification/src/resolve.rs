//! Resolution: from specifiers, and from what the backends report, to the
//! entries that are candidates for removal.

use vstd::prelude::*;
use vstd::string::StringExecFns;
use crate::entry::{ResolvedToolVersion, ResolvedView};
use crate::listing::ResolutionError;
use crate::matcher::{matched, matched_origin, select, Origin};
use crate::specifier::{SpecifierView, ToolSpecifier};

verus! {

/// What the registry and the backend report for one specifier.
#[derive(Clone, Debug, PartialEq, Eq)]
pub enum Lookup {
    /// The registry holds no backend of the specifier's name.
    Unknown,
    /// The backend's installed versions, and the version to which it
    /// resolved the requirement as an alias or a range, if it did.
    Known { installed: Vec<String>, alias: Option<String> },
}

/// A lookup as plain text.
pub enum LookupView {
    Unknown,
    Known { installed: Seq<Seq<char>>, alias: Option<Seq<char>> },
}

impl View for Lookup {
    type V = LookupView;

    open spec fn view(&self) -> LookupView {
        match self {
            Lookup::Unknown => LookupView::Unknown,
            Lookup::Known { installed, alias } => LookupView::Known {
                installed: installed.deep_view(),
                alias: alias.deep_view(),
            },
        }
    }
}

impl DeepView for Lookup {
    type V = LookupView;

    open spec fn deep_view(&self) -> LookupView {
        self@
    }
}

/// One entry of `backend` for each of `versions`, in their order.
pub open spec fn tagged(backend: Seq<char>, versions: Seq<Seq<char>>, origin: Origin) -> Seq<
    ResolvedView,
> {
    Seq::new(versions.len(), |i: int| ResolvedView { backend, version: versions[i], origin })
}

/// The candidates that one specifier yields: the installed versions that
/// its requirement selects and, behind them, the version to which the
/// backend resolved the requirement.
pub open spec fn candidates(
    specifier: SpecifierView,
    installed: Seq<Seq<char>>,
    alias: Option<Seq<char>>,
) -> Seq<ResolvedView> {
    let selected = tagged(
        specifier.backend,
        matched(installed, specifier.requirement),
        matched_origin(installed, specifier.requirement),
    );
    match (specifier.requirement, alias) {
        (Some(_), Some(version)) => selected.push(
            ResolvedView { backend: specifier.backend, version, origin: Origin::Alias },
        ),
        _ => selected,
    }
}

/// The entries for what a toolset lists as installed: one for each pair of
/// a backend's name and a version, in their order.
pub open spec fn declared_entries(pairs: Seq<(Seq<char>, Seq<char>)>) -> Seq<ResolvedView> {
    Seq::new(
        pairs.len(),
        |i: int| ResolvedView { backend: pairs[i].0, version: pairs[i].1, origin: Origin::Declared },
    )
}

/// What the lookups hold for the specifier at `position`; a specifier
/// without a lookup counts as one of an unknown backend.
pub open spec fn lookup_at(lookups: Seq<LookupView>, position: int) -> LookupView {
    if 0 <= position < lookups.len() {
        lookups[position]
    } else {
        LookupView::Unknown
    }
}

/// The candidates of all specifiers, in the specifiers' order; or, where a
/// specifier names an unknown backend, the name of the first such backend.
pub open spec fn requested(specifiers: Seq<SpecifierView>, lookups: Seq<LookupView>) -> Result<
    Seq<ResolvedView>,
    Seq<char>,
>
    decreases specifiers.len(),
{
    if specifiers.len() == 0 {
        Ok(Seq::empty())
    } else {
        match requested(specifiers.drop_last(), lookups) {
            Err(name) => Err(name),
            Ok(found) => match lookup_at(lookups, specifiers.len() - 1) {
                LookupView::Unknown => Err(specifiers.last().backend),
                LookupView::Known { installed, alias } => Ok(
                    found + candidates(specifiers.last(), installed, alias),
                ),
            },
        }
    }
}

/// The candidates of each specifier, one list for each, where every
/// backend is known.
pub open spec fn candidate_lists(specifiers: Seq<SpecifierView>, lookups: Seq<LookupView>) -> Seq<
    Seq<ResolvedView>,
> {
    Seq::new(
        specifiers.len(),
        |i: int|
            candidates(
                specifiers[i],
                lookup_at(lookups, i)->installed,
                lookup_at(lookups, i)->alias,
            ),
    )
}

/// Where every backend is known, the candidates of all specifiers are
/// those of each, one behind the other.
pub proof fn requested_is_flattened(specifiers: Seq<SpecifierView>, lookups: Seq<LookupView>)
    requires
        forall|i: int| 0 <= i < specifiers.len() ==> lookup_at(lookups, i) is Known,
    ensures
        requested(specifiers, lookups) == Ok::<Seq<ResolvedView>, Seq<char>>(
            candidate_lists(specifiers, lookups).flatten(),
        ),
    decreases specifiers.len(),
{
    let lists = candidate_lists(specifiers, lookups);
    if specifiers.len() == 0 {
        assert(lists =~= Seq::empty());
    } else {
        let front = specifiers.drop_last();
        requested_is_flattened(front, lookups);
        let earlier = candidate_lists(front, lookups);
        assert(lists =~= earlier.push(lists.last()));
        earlier.lemma_flatten_push(lists.last());
    }
}

/// Where some backend is unknown, resolution fails with the name of the
/// first specifier whose backend is.
pub proof fn requested_fails_at_first_unknown(
    specifiers: Seq<SpecifierView>,
    lookups: Seq<LookupView>,
    position: int,
)
    requires
        0 <= position < specifiers.len(),
        lookup_at(lookups, position) is Unknown,
        forall|i: int| 0 <= i < position ==> lookup_at(lookups, i) is Known,
    ensures
        requested(specifiers, lookups) == Err::<Seq<ResolvedView>, Seq<char>>(
            specifiers[position].backend,
        ),
    decreases specifiers.len(),
{
    let front = specifiers.drop_last();
    if position == specifiers.len() - 1 {
        requested_is_flattened(front, lookups);
    } else {
        requested_fails_at_first_unknown(front, lookups, position);
    }
}

/// Resolution invents nothing: each candidate belongs to the specifier's
/// backend, and its version is one that the backend reported, as installed
/// or as what the requirement resolves to.
pub proof fn candidates_are_reported(
    specifier: SpecifierView,
    installed: Seq<Seq<char>>,
    alias: Option<Seq<char>>,
    i: int,
)
    requires
        0 <= i < candidates(specifier, installed, alias).len(),
    ensures
        ({
            let entry = candidates(specifier, installed, alias)[i];
            &&& entry.backend == specifier.backend
            &&& entry.origin != Origin::Declared
            &&& if entry.origin == Origin::Alias {
                specifier.requirement is Some && alias == Some(entry.version)
            } else {
                installed.contains(entry.version)
            }
        }),
{
    let selected = matched(installed, specifier.requirement);
    if i < selected.len() {
        assert(selected.contains(selected[i]));
        match specifier.requirement {
            None => {},
            Some(wanted) => {
                if !installed.contains(wanted) {
                    installed.lemma_filter_contains_rev(
                        |version: Seq<char>| wanted.is_prefix_of(version),
                        selected[i],
                    );
                }
            },
        }
    }
}

/// The candidates that `specifier` yields, given what `lookup` reports for
/// it. Fails where the backend is unknown.
pub fn resolve_specifier(specifier: &ToolSpecifier, lookup: &Lookup) -> (outcome: Result<
    Vec<ResolvedToolVersion>,
    ResolutionError,
>)
    ensures
        match outcome {
            Ok(found) => {
                &&& lookup@ matches LookupView::Known { installed, alias }
                &&& found.deep_view() == candidates(specifier@, installed, alias)
            },
            Err(error) => {
                &&& lookup@ is Unknown
                &&& error matches ResolutionError::UnknownBackend(name)
                &&& name@ == specifier@.backend
            },
        },
{
    match lookup {
        Lookup::Unknown => Err(ResolutionError::UnknownBackend(specifier.backend.clone())),
        Lookup::Known { installed, alias } => {
            let (versions, origin) = select(installed, &specifier.requirement);
            let ghost selected = tagged(specifier@.backend, versions.deep_view(), origin);
            let mut found: Vec<ResolvedToolVersion> = Vec::new();
            let mut i: usize = 0;
            while i < versions.len()
                invariant
                    i <= versions.len(),
                    selected == tagged(specifier@.backend, versions.deep_view(), origin),
                    found.deep_view() == selected.take(i as int),
                decreases versions.len() - i,
            {
                let ghost so_far = found.deep_view();
                found.push(
                    ResolvedToolVersion::new(
                        specifier.backend.clone(),
                        versions[i].clone(),
                        origin,
                    ),
                );
                assert(found.deep_view() =~= so_far.push(selected[i as int]));
                assert(selected.take(i + 1) =~= so_far.push(selected[i as int]));
                i = i + 1;
            }
            assert(selected.take(i as int) =~= selected);
            match (&specifier.requirement, alias) {
                (Some(_), Some(version)) => {
                    let ghost so_far = found.deep_view();
                    let entry = ResolvedToolVersion::new(
                        specifier.backend.clone(),
                        version.clone(),
                        Origin::Alias,
                    );
                    found.push(entry);
                    assert(found.deep_view() =~= so_far.push(entry@));
                },
                _ => {},
            }
            Ok(found)
        },
    }
}

/// The warning that is due where a specifier yielded `found`: one is due
/// only where it yielded nothing, which is no error.
pub fn no_versions_warning(specifier: &ToolSpecifier, found: &Vec<ResolvedToolVersion>) -> (text:
    Option<String>)
    ensures
        text.deep_view() == if found@.len() == 0 {
            Some("no versions found for "@ + specifier@.backend)
        } else {
            None
        },
{
    if found.len() == 0 {
        let mut text = String::from_str("no versions found for ");
        text.append(specifier.backend.as_str());
        Some(text)
    } else {
        None
    }
}

/// Several lists of candidates as one list, in their order.
pub fn flatten(lists: &Vec<Vec<ResolvedToolVersion>>) -> (found: Vec<ResolvedToolVersion>)
    ensures
        found.deep_view() == lists.deep_view().flatten(),
{
    let ghost all = lists.deep_view();
    let mut found: Vec<ResolvedToolVersion> = Vec::new();
    let mut i: usize = 0;
    assert(all.take(0) =~= Seq::empty());
    while i < lists.len()
        invariant
            i <= lists.len(),
            all == lists.deep_view(),
            found.deep_view() == all.take(i as int).flatten(),
        decreases lists.len() - i,
    {
        let list = &lists[i];
        let ghost done = found.deep_view();
        let mut j: usize = 0;
        while j < list.len()
            invariant
                j <= list.len(),
                found.deep_view() == done + list.deep_view().take(j as int),
            decreases list.len() - j,
        {
            let ghost so_far = found.deep_view();
            found.push(list[j].duplicate());
            assert(found.deep_view() =~= so_far.push(list.deep_view()[j as int]));
            assert(list.deep_view().take(j + 1) =~= list.deep_view().take(j as int).push(
                list.deep_view()[j as int],
            ));
            j = j + 1;
        }
        proof {
            assert(list.deep_view().take(j as int) =~= list.deep_view());
            assert(all.take(i + 1) =~= all.take(i as int).push(all[i as int]));
            all.take(i as int).lemma_flatten_push(all[i as int]);
        }
        i = i + 1;
    }
    assert(all.take(i as int) =~= all);
    found
}

} // verus!
