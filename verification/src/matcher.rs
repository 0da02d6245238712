//! The version matcher: which installed versions a requirement selects.

use vstd::prelude::*;
use crate::text::starts_with;

verus! {

/// Why a version was selected.
#[derive(Clone, Copy, Debug, PartialEq, Eq, Structural, Hash)]
pub enum Origin {
    /// The requirement names the installed version letter for letter.
    Exact,
    /// The installed version begins with the requirement; every installed
    /// version does when there is no requirement.
    Prefix,
    /// The backend resolved the requirement, as an alias or a range, to
    /// this version.
    Alias,
    /// The version is installed for a tool that the configuration declares.
    Declared,
}

/// The installed versions that `requirement` selects out of `installed`:
/// all of them without a requirement; the requirement itself where it is
/// installed; else those that begin with it, in the order of `installed`.
pub open spec fn matched(installed: Seq<Seq<char>>, requirement: Option<Seq<char>>) -> Seq<
    Seq<char>,
> {
    match requirement {
        None => installed,
        Some(wanted) => if installed.contains(wanted) {
            seq![wanted]
        } else {
            installed.filter(|version: Seq<char>| wanted.is_prefix_of(version))
        },
    }
}

/// The origin that goes with `matched`.
pub open spec fn matched_origin(installed: Seq<Seq<char>>, requirement: Option<Seq<char>>)
    -> Origin {
    match requirement {
        Some(wanted) if installed.contains(wanted) => Origin::Exact,
        _ => Origin::Prefix,
    }
}

/// An exact match wins: where the requirement itself is installed, it alone
/// is selected, whatever else begins with it.
pub proof fn exact_match_wins(installed: Seq<Seq<char>>, wanted: Seq<char>)
    requires
        installed.contains(wanted),
    ensures
        matched(installed, Some(wanted)) == seq![wanted],
        matched_origin(installed, Some(wanted)) == Origin::Exact,
{
}

/// Without an exact match, the installed versions that begin with the
/// requirement are selected, and no others, in the order of `installed`.
pub proof fn prefix_matches_keep_order(installed: Seq<Seq<char>>, wanted: Seq<char>)
    requires
        !installed.contains(wanted),
    ensures
        matched(installed, Some(wanted)) == installed.filter(
            |version: Seq<char>| wanted.is_prefix_of(version),
        ),
        forall|version: Seq<char>|
            matched(installed, Some(wanted)).contains(version) <==> installed.contains(version)
                && wanted.is_prefix_of(version),
        matched_origin(installed, Some(wanted)) == Origin::Prefix,
{
    let begins = |version: Seq<char>| wanted.is_prefix_of(version);
    let selected = installed.filter(begins);
    assert forall|version: Seq<char>| selected.contains(version) <==> installed.contains(version)
        && wanted.is_prefix_of(version) by {
        if selected.contains(version) {
            let i = choose|i: int| 0 <= i < selected.len() && selected[i] == version;
            installed.lemma_filter_pred(begins, i);
            installed.lemma_filter_contains_rev(begins, version);
        }
        if installed.contains(version) && wanted.is_prefix_of(version) {
            let i = choose|i: int| 0 <= i < installed.len() && installed[i] == version;
            installed.lemma_filter_contains(begins, i);
        }
    }
}

/// Whether `wanted` is among `installed`.
fn is_installed(installed: &Vec<String>, wanted: &String) -> (found: bool)
    ensures
        found == installed.deep_view().contains(wanted@),
{
    let mut i: usize = 0;
    while i < installed.len()
        invariant
            i <= installed.len(),
            forall|j: int| 0 <= j < i ==> installed.deep_view()[j] != wanted@,
        decreases installed.len() - i,
    {
        if installed[i] == *wanted {
            assert(installed.deep_view()[i as int] == wanted@);
            return true;
        }
        i = i + 1;
    }
    false
}

/// The installed versions that begin with `wanted`, in their order.
fn with_prefix(installed: &Vec<String>, wanted: &String) -> (found: Vec<String>)
    ensures
        found.deep_view() == installed.deep_view().filter(
            |version: Seq<char>| wanted@.is_prefix_of(version),
        ),
{
    let ghost all = installed.deep_view();
    let ghost begins = |version: Seq<char>| wanted@.is_prefix_of(version);
    let mut found: Vec<String> = Vec::new();
    let mut i: usize = 0;
    proof {
        reveal(Seq::filter);
        assert(all.take(0) =~= Seq::empty());
    }
    while i < installed.len()
        invariant
            i <= installed.len(),
            all == installed.deep_view(),
            begins == |version: Seq<char>| wanted@.is_prefix_of(version),
            found.deep_view() == all.take(i as int).filter(begins),
        decreases installed.len() - i,
    {
        proof {
            reveal(Seq::filter);
            assert(all.take(i + 1).drop_last() =~= all.take(i as int));
        }
        if starts_with(installed[i].as_str(), wanted.as_str()) {
            let ghost before = found.deep_view();
            found.push(installed[i].clone());
            assert(found.deep_view() =~= before.push(all[i as int]));
        }
        i = i + 1;
    }
    assert(all.take(i as int) =~= all);
    found
}

/// A copy of `installed`.
fn every(installed: &Vec<String>) -> (found: Vec<String>)
    ensures
        found.deep_view() == installed.deep_view(),
{
    let mut found: Vec<String> = Vec::new();
    let mut i: usize = 0;
    while i < installed.len()
        invariant
            i <= installed.len(),
            found.deep_view() == installed.deep_view().take(i as int),
        decreases installed.len() - i,
    {
        let ghost before = found.deep_view();
        found.push(installed[i].clone());
        assert(found.deep_view() =~= before.push(installed.deep_view()[i as int]));
        assert(installed.deep_view().take(i + 1) =~= before.push(installed.deep_view()[i as int]));
        i = i + 1;
    }
    assert(installed.deep_view().take(i as int) =~= installed.deep_view());
    found
}

/// Selects from `installed` what `requirement` asks for, and says why.
pub fn select(installed: &Vec<String>, requirement: &Option<String>) -> (found: (
    Vec<String>,
    Origin,
))
    ensures
        found.0.deep_view() == matched(installed.deep_view(), requirement.deep_view()),
        found.1 == matched_origin(installed.deep_view(), requirement.deep_view()),
{
    match requirement {
        None => (every(installed), Origin::Prefix),
        Some(wanted) => {
            if is_installed(installed, wanted) {
                let mut found: Vec<String> = Vec::new();
                found.push(wanted.clone());
                assert(found.deep_view() =~= seq![wanted@]);
                (found, Origin::Exact)
            } else {
                (with_prefix(installed, wanted), Origin::Prefix)
            }
        },
    }
}

/// The installed versions that `requirement` selects.
pub fn match_versions(installed: &Vec<String>, requirement: &Option<String>) -> (found: Vec<
    String,
>)
    ensures
        found.deep_view() == matched(installed.deep_view(), requirement.deep_view()),
{
    select(installed, requirement).0
}

} // verus!
