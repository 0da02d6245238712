//! Sorting of resolved tool versions into the listing order.

use core::cmp::Ordering;
use itertools::Itertools;
use vstd::prelude::*;
use crate::entry::{
    identity_before, identity_before_irreflexive, identity_before_total, same_identity,
    ResolvedToolVersion, ResolvedView,
};

verus! {

/// No entry of `s` is listed before one that stands earlier in `s`.
pub open spec fn in_order(s: Seq<ResolvedView>) -> bool {
    forall|i: int, j: int| 0 <= i < j < s.len() ==> !identity_before(s[j], s[i])
}

/// The entries of `s` that share the identity of `e`, in their order.
pub open spec fn of_identity(s: Seq<ResolvedView>, e: ResolvedView) -> Seq<ResolvedView> {
    s.filter(|x: ResolvedView| same_identity(x, e))
}

/// How `a` stands to `b` in the listing order: less when it is listed
/// before `b`, greater when behind it, equal when both share an identity.
pub fn ordering(a: &ResolvedToolVersion, b: &ResolvedToolVersion) -> (o: Ordering)
    ensures
        (o == Ordering::Less) == identity_before(a@, b@),
        (o == Ordering::Greater) == identity_before(b@, a@),
        (o == Ordering::Equal) == same_identity(a@, b@),
{
    proof {
        identity_before_total(a@, b@);
        if same_identity(a@, b@) {
            identity_before_irreflexive(a@, b@);
            identity_before_irreflexive(b@, a@);
        }
    }
    if a.precedes(b) {
        Ordering::Less
    } else if b.precedes(a) {
        Ordering::Greater
    } else {
        Ordering::Equal
    }
}

/// `Itertools::sorted_by` under `ordering`, collected into a vector.
/// Trusted: the result holds the entries of `found`, each as often as
/// `found` does; it is in listing order; and the sort is stable, so entries
/// of one identity keep the order they had. The sort asks for a total
/// order, which `ordering` is: see `identity_before_total` and
/// `identity_before_transitive`.
#[verifier::external_body]
pub(crate) fn sorted_by_identity(found: Vec<ResolvedToolVersion>) -> (listed: Vec<
    ResolvedToolVersion,
>)
    ensures
        listed.deep_view().to_multiset() == found.deep_view().to_multiset(),
        in_order(listed.deep_view()),
        forall|e: ResolvedView| #[trigger]
            of_identity(listed.deep_view(), e) == of_identity(found.deep_view(), e),
{
    found.into_iter().sorted_by(|a, b| ordering(a, b)).collect()
}

} // verus!
