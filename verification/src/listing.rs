//! The final list of a resolution: duplicates removed, entries in listing
//! order, and the guard against removing several tools unasked.

use itertools::Itertools;
use vstd::prelude::*;
use vstd::string::StringExecFns;
use crate::entry::{
    identity_before, identity_before_irreflexive, identity_before_total,
    identity_before_transitive, same_identity, ResolvedToolVersion, ResolvedView,
};
use crate::sorting::{in_order, sorted_by_identity};

verus! {

/// Why a resolution yields no list.
#[derive(Clone, Debug, PartialEq, Eq)]
pub enum ResolutionError {
    /// The entries belong to more than one backend, and the run was not
    /// told to remove all of them.
    Ambiguous,
    /// The registry holds no backend of this name.
    UnknownBackend(String),
}

/// What a resolution error tells the user.
pub open spec fn message_of(error: ResolutionError) -> Seq<char> {
    match error {
        ResolutionError::Ambiguous =>
            "multiple tools specified, use --all to uninstall all versions"@,
        ResolutionError::UnknownBackend(name) => "unknown backend: "@ + name@,
    }
}

impl ResolutionError {
    /// What the error tells the user.
    pub fn message(&self) -> (text: String)
        ensures
            text@ == message_of(*self),
    {
        match self {
            ResolutionError::Ambiguous => String::from_str(
                "multiple tools specified, use --all to uninstall all versions",
            ),
            ResolutionError::UnknownBackend(name) => {
                let mut text = String::from_str("unknown backend: ");
                text.append(name.as_str());
                text
            },
        }
    }
}

/// Some entry of `s` has the identity of `e`.
pub open spec fn occurs(s: Seq<ResolvedView>, e: ResolvedView) -> bool {
    exists|j: int| 0 <= j < s.len() && same_identity(#[trigger] s[j], e)
}

/// `s` without the entries whose identity an earlier entry has.
pub open spec fn first_occurrences(s: Seq<ResolvedView>) -> Seq<ResolvedView>
    decreases s.len(),
{
    if s.len() == 0 {
        s
    } else if occurs(s.drop_last(), s.last()) {
        first_occurrences(s.drop_last())
    } else {
        first_occurrences(s.drop_last()).push(s.last())
    }
}

/// No two entries of `s` share an identity.
pub open spec fn distinct(s: Seq<ResolvedView>) -> bool {
    forall|i: int, j: int| 0 <= i < j < s.len() ==> !same_identity(s[i], s[j])
}

/// Each entry of `s` is listed before every later one.
pub open spec fn ascending(s: Seq<ResolvedView>) -> bool {
    forall|i: int, j: int| 0 <= i < j < s.len() ==> identity_before(s[i], s[j])
}

/// The entries of `s` belong to more than one backend.
pub open spec fn spans_backends(s: Seq<ResolvedView>) -> bool {
    exists|i: int, j: int|
        0 <= i < s.len() && 0 <= j < s.len() && (#[trigger] s[i]).backend != (
        #[trigger] s[j]).backend
}

/// `listed` is the final list for `found`: it holds the first occurrences
/// of `found`, and nothing else, in ascending listing order.
pub open spec fn final_order(listed: Seq<ResolvedView>, found: Seq<ResolvedView>) -> bool {
    &&& ascending(listed)
    &&& forall|e: ResolvedView|
        #![trigger listed.contains(e)]
        #![trigger first_occurrences(found).contains(e)]
        listed.contains(e) <==> first_occurrences(found).contains(e)
}

/// `Itertools::unique_by` keyed by identity, collected into a vector.
/// Trusted: of the entries that share an identity the first is kept, and
/// the kept entries stay in their order.
#[verifier::external_body]
pub(crate) fn unique_by_identity(found: Vec<ResolvedToolVersion>) -> (kept: Vec<
    ResolvedToolVersion,
>)
    ensures
        kept.deep_view() == first_occurrences(found.deep_view()),
{
    found.into_iter().unique_by(|entry| entry.identity()).collect()
}

/// What `first_occurrences` keeps and what it drops: the kept entries are
/// distinct, each comes from `s`, and each entry of `s` has its identity
/// among them.
pub proof fn first_occurrences_cover(s: Seq<ResolvedView>)
    ensures
        distinct(first_occurrences(s)),
        forall|e: ResolvedView| first_occurrences(s).contains(e) ==> s.contains(e),
        forall|e: ResolvedView| s.contains(e) ==> occurs(first_occurrences(s), e),
    decreases s.len(),
{
    let kept = first_occurrences(s);
    if s.len() > 0 {
        let front = s.drop_last();
        let last = s.last();
        let earlier = first_occurrences(front);
        first_occurrences_cover(front);
        assert forall|e: ResolvedView| front.contains(e) implies s.contains(e) by {
            let j = choose|j: int| 0 <= j < front.len() && front[j] == e;
            assert(s[j] == e);
        }
        assert forall|e: ResolvedView| kept.contains(e) implies s.contains(e) by {
            let j = choose|j: int| 0 <= j < kept.len() && kept[j] == e;
            if j < earlier.len() {
                assert(earlier.contains(e));
            } else {
                assert(s[s.len() - 1] == e);
            }
        }
        assert forall|e: ResolvedView| s.contains(e) implies occurs(kept, e) by {
            let j = choose|j: int| 0 <= j < s.len() && s[j] == e;
            if j < front.len() {
                assert(front[j] == e);
                assert(front.contains(e));
                let k = choose|k: int| 0 <= k < earlier.len() && same_identity(earlier[k], e);
                assert(same_identity(kept[k], e));
            } else if occurs(front, last) {
                let m = choose|m: int| 0 <= m < front.len() && same_identity(front[m], last);
                assert(front.contains(front[m]));
                let k = choose|k: int|
                    0 <= k < earlier.len() && same_identity(earlier[k], front[m]);
                assert(same_identity(kept[k], e));
            } else {
                assert(same_identity(kept[kept.len() - 1], e));
            }
        }
        if !occurs(front, last) {
            assert forall|i: int, j: int| 0 <= i < j < kept.len() implies !same_identity(
                kept[i],
                kept[j],
            ) by {
                if j < earlier.len() {
                    assert(!same_identity(earlier[i], earlier[j]));
                } else if same_identity(kept[i], kept[j]) {
                    assert(kept[i] == earlier[i]);
                    assert(kept[j] == last);
                    assert(earlier.contains(earlier[i]));
                    assert(front.contains(earlier[i]));
                    let m = choose|m: int| 0 <= m < front.len() && front[m] == earlier[i];
                    assert(same_identity(front[m], last));
                    assert(occurs(front, last));
                }
            }
        }
    }
}

/// A list in ascending order holds no identity twice.
pub proof fn ascending_is_distinct(s: Seq<ResolvedView>)
    requires
        ascending(s),
    ensures
        distinct(s),
{
    assert forall|i: int, j: int| 0 <= i < j < s.len() implies !same_identity(s[i], s[j]) by {
        if same_identity(s[i], s[j]) {
            identity_before_irreflexive(s[i], s[j]);
        }
    }
}

/// A reordering of distinct entries that is in listing order is ascending.
proof fn reordered_distinct_is_ascending(listed: Seq<ResolvedView>, kept: Seq<ResolvedView>)
    requires
        distinct(kept),
        in_order(listed),
        listed.to_multiset() == kept.to_multiset(),
    ensures
        ascending(listed),
        forall|e: ResolvedView| listed.contains(e) <==> kept.contains(e),
{
    broadcast use vstd::seq_lib::group_to_multiset_ensures;

    assert(kept.no_duplicates()) by {
        assert forall|i: int, j: int| 0 <= i < kept.len() && 0 <= j < kept.len() && i != j implies kept[i]
            != kept[j] by {
            if i < j {
                assert(!same_identity(kept[i], kept[j]));
            } else {
                assert(!same_identity(kept[j], kept[i]));
            }
        }
    }
    kept.lemma_multiset_has_no_duplicates();
    listed.lemma_multiset_has_no_duplicates_conv();
    assert forall|e: ResolvedView| listed.contains(e) <==> kept.contains(e) by {
        assert(listed.contains(e) <==> listed.to_multiset().count(e) > 0);
        assert(kept.contains(e) <==> kept.to_multiset().count(e) > 0);
    }
    assert forall|i: int, j: int| 0 <= i < j < listed.len() implies identity_before(
        listed[i],
        listed[j],
    ) by {
        assert(listed.contains(listed[i]));
        assert(listed.contains(listed[j]));
        let m = choose|m: int| 0 <= m < kept.len() && kept[m] == listed[i];
        let n = choose|n: int| 0 <= n < kept.len() && kept[n] == listed[j];
        assert(listed[i] != listed[j]);
        if m < n {
            assert(!same_identity(kept[m], kept[n]));
        } else {
            assert(!same_identity(kept[n], kept[m]));
        }
        identity_before_total(listed[i], listed[j]);
    }
}

/// Removing duplicates and reordering neither adds a backend nor loses one.
proof fn same_backends(listed: Seq<ResolvedView>, found: Seq<ResolvedView>)
    requires
        forall|e: ResolvedView| listed.contains(e) <==> first_occurrences(found).contains(e),
    ensures
        spans_backends(listed) == spans_backends(found),
{
    let kept = first_occurrences(found);
    first_occurrences_cover(found);
    if spans_backends(listed) {
        let (i, j) = choose|i: int, j: int|
            0 <= i < listed.len() && 0 <= j < listed.len() && (#[trigger] listed[i]).backend != (
            #[trigger] listed[j]).backend;
        assert(listed.contains(listed[i]));
        assert(listed.contains(listed[j]));
        assert(found.contains(listed[i]));
        assert(found.contains(listed[j]));
        let m = choose|m: int| 0 <= m < found.len() && found[m] == listed[i];
        let n = choose|n: int| 0 <= n < found.len() && found[n] == listed[j];
        assert(found[m].backend != found[n].backend);
    }
    if spans_backends(found) {
        let (i, j) = choose|i: int, j: int|
            0 <= i < found.len() && 0 <= j < found.len() && (#[trigger] found[i]).backend != (
            #[trigger] found[j]).backend;
        assert(found.contains(found[i]));
        assert(found.contains(found[j]));
        let m = choose|m: int| 0 <= m < kept.len() && same_identity(kept[m], found[i]);
        let n = choose|n: int| 0 <= n < kept.len() && same_identity(kept[n], found[j]);
        assert(kept.contains(kept[m]));
        assert(kept.contains(kept[n]));
        assert(listed.contains(kept[m]));
        assert(listed.contains(kept[n]));
        let p = choose|p: int| 0 <= p < listed.len() && listed[p] == kept[m];
        let q = choose|q: int| 0 <= q < listed.len() && listed[q] == kept[n];
        assert(listed[p].backend != listed[q].backend);
    }
}

/// Whether the entries belong to more than one backend.
fn spans(listed: &Vec<ResolvedToolVersion>) -> (several: bool)
    ensures
        several == spans_backends(listed.deep_view()),
{
    let ghost s = listed.deep_view();
    let mut i: usize = 1;
    while i < listed.len()
        invariant
            1 <= i,
            s == listed.deep_view(),
            forall|j: int| 0 <= j < i && j < s.len() ==> (#[trigger] s[j]).backend == s[0].backend,
        decreases listed.len() - i,
    {
        if listed[i].backend != listed[0].backend {
            assert(s[i as int].backend != s[0].backend);
            return true;
        }
        i = i + 1;
    }
    false
}

/// The final list for `found`: its first occurrences in listing order.
/// Entries of several backends are refused unless `all` is set.
pub fn coordinate(found: Vec<ResolvedToolVersion>, all: bool) -> (outcome: Result<
    Vec<ResolvedToolVersion>,
    ResolutionError,
>)
    ensures
        match outcome {
            Ok(listed) => {
                &&& final_order(listed.deep_view(), found.deep_view())
                &&& all || !spans_backends(found.deep_view())
            },
            Err(error) => {
                &&& error matches ResolutionError::Ambiguous
                &&& !all
                &&& spans_backends(found.deep_view())
            },
        },
{
    let ghost all_found = found.deep_view();
    let kept = unique_by_identity(found);
    let ghost all_kept = kept.deep_view();
    let listed = sorted_by_identity(kept);
    proof {
        first_occurrences_cover(all_found);
        reordered_distinct_is_ascending(listed.deep_view(), all_kept);
        same_backends(listed.deep_view(), all_found);
    }
    if !all && spans(&listed) {
        Err(ResolutionError::Ambiguous)
    } else {
        Ok(listed)
    }
}

/// Two ascending lists with the same entries are the same list.
proof fn ascending_lists_agree(a: Seq<ResolvedView>, b: Seq<ResolvedView>)
    requires
        ascending(a),
        ascending(b),
        forall|e: ResolvedView| a.contains(e) <==> b.contains(e),
    ensures
        a == b,
    decreases a.len(),
{
    if a.len() == 0 {
        if b.len() > 0 {
            assert(b.contains(b[0]));
        }
        assert(a =~= b);
    } else {
        assert(a.contains(a[0]));
        let j = choose|j: int| 0 <= j < b.len() && b[j] == a[0];
        assert(b.contains(b[0]));
        let i = choose|i: int| 0 <= i < a.len() && a[i] == b[0];
        if j > 0 {
            if i > 0 {
                identity_before_transitive(b[0], a[0], b[0]);
            }
            identity_before_irreflexive(b[0], b[0]);
        }
        let x = a.drop_first();
        let y = b.drop_first();
        assert forall|e: ResolvedView| x.contains(e) <==> y.contains(e) by {
            if x.contains(e) {
                let m = choose|m: int| 0 <= m < x.len() && x[m] == e;
                assert(identity_before(a[0], a[m + 1]));
                assert(a.contains(e));
                let n = choose|n: int| 0 <= n < b.len() && b[n] == e;
                if n == 0 {
                    identity_before_irreflexive(a[0], e);
                }
                assert(y[n - 1] == e);
            }
            if y.contains(e) {
                let m = choose|m: int| 0 <= m < y.len() && y[m] == e;
                assert(identity_before(b[0], b[m + 1]));
                assert(b.contains(e));
                let n = choose|n: int| 0 <= n < a.len() && a[n] == e;
                if n == 0 {
                    identity_before_irreflexive(b[0], e);
                }
                assert(x[n - 1] == e);
            }
        }
        ascending_lists_agree(x, y);
        assert(a =~= seq![a[0]] + x);
        assert(b =~= seq![b[0]] + y);
    }
}

/// Two ascending lists that hold the same identities hold them at the same
/// positions.
proof fn ascending_lists_agree_by_identity(a: Seq<ResolvedView>, b: Seq<ResolvedView>)
    requires
        ascending(a),
        ascending(b),
        forall|e: ResolvedView| occurs(a, e) <==> occurs(b, e),
    ensures
        a.len() == b.len(),
        forall|i: int| 0 <= i < a.len() ==> same_identity(a[i], b[i]),
    decreases a.len(),
{
    if a.len() == 0 {
        if b.len() > 0 {
            assert(same_identity(b[0], b[0]));
            assert(occurs(b, b[0]));
        }
    } else {
        assert(same_identity(a[0], a[0]));
        assert(occurs(a, a[0]));
        let j = choose|j: int| 0 <= j < b.len() && same_identity(b[j], a[0]);
        assert(same_identity(b[0], b[0]));
        assert(occurs(b, b[0]));
        let i = choose|i: int| 0 <= i < a.len() && same_identity(a[i], b[0]);
        if j > 0 {
            assert(identity_before(b[0], b[j]));
            assert(identity_before(b[0], a[0]));
            if i > 0 {
                assert(identity_before(a[0], a[i]));
                assert(identity_before(a[0], b[0]));
                identity_before_transitive(b[0], a[0], b[0]);
                identity_before_irreflexive(b[0], b[0]);
            } else {
                identity_before_irreflexive(b[0], a[0]);
            }
        }
        let x = a.drop_first();
        let y = b.drop_first();
        assert forall|e: ResolvedView| occurs(x, e) <==> occurs(y, e) by {
            if occurs(x, e) {
                let m = choose|m: int| 0 <= m < x.len() && same_identity(x[m], e);
                assert(identity_before(a[0], a[m + 1]));
                assert(same_identity(a[m + 1], e));
                assert(occurs(a, e));
                let n = choose|n: int| 0 <= n < b.len() && same_identity(b[n], e);
                if n == 0 {
                    identity_before_irreflexive(a[0], a[m + 1]);
                }
                assert(same_identity(y[n - 1], e));
            }
            if occurs(y, e) {
                let m = choose|m: int| 0 <= m < y.len() && same_identity(y[m], e);
                assert(identity_before(b[0], b[m + 1]));
                assert(same_identity(b[m + 1], e));
                assert(occurs(b, e));
                let n = choose|n: int| 0 <= n < a.len() && same_identity(a[n], e);
                if n == 0 {
                    identity_before_irreflexive(b[0], b[m + 1]);
                }
                assert(same_identity(x[n - 1], e));
            }
        }
        ascending_lists_agree_by_identity(x, y);
        assert forall|k: int| 0 <= k < a.len() implies same_identity(a[k], b[k]) by {
            if k > 0 {
                assert(same_identity(x[k - 1], y[k - 1]));
            }
        }
    }
}

/// The order in which the entries were found does not change which
/// version stands where in the final list: two finds that hold the same
/// identities lead to final lists of one length that agree, position by
/// position, in backend and version.
pub proof fn final_order_ignores_the_order_found(
    a: Seq<ResolvedView>,
    found_a: Seq<ResolvedView>,
    b: Seq<ResolvedView>,
    found_b: Seq<ResolvedView>,
)
    requires
        final_order(a, found_a),
        final_order(b, found_b),
        forall|e: ResolvedView| occurs(found_a, e) <==> occurs(found_b, e),
    ensures
        a.len() == b.len(),
        forall|i: int| 0 <= i < a.len() ==> same_identity(a[i], b[i]),
{
    assert forall|e: ResolvedView| occurs(a, e) <==> occurs(b, e) by {
        final_order_holds_what_was_found(a, found_a, e);
        final_order_holds_what_was_found(b, found_b, e);
    }
    ascending_lists_agree_by_identity(a, b);
}

/// The final list holds the identities that were found, and no others.
pub proof fn final_order_holds_what_was_found(
    listed: Seq<ResolvedView>,
    found: Seq<ResolvedView>,
    e: ResolvedView,
)
    requires
        final_order(listed, found),
    ensures
        occurs(listed, e) <==> occurs(found, e),
{
    let kept = first_occurrences(found);
    first_occurrences_cover(found);
    if occurs(listed, e) {
        let k = choose|k: int| 0 <= k < listed.len() && same_identity(listed[k], e);
        assert(listed.contains(listed[k]));
        assert(kept.contains(listed[k]));
        assert(found.contains(listed[k]));
        let j = choose|j: int| 0 <= j < found.len() && found[j] == listed[k];
        assert(same_identity(found[j], e));
    }
    if occurs(found, e) {
        let j = choose|j: int| 0 <= j < found.len() && same_identity(found[j], e);
        assert(found.contains(found[j]));
        let n = choose|n: int| 0 <= n < kept.len() && same_identity(kept[n], found[j]);
        assert(kept.contains(kept[n]));
        assert(listed.contains(kept[n]));
        let k = choose|k: int| 0 <= k < listed.len() && listed[k] == kept[n];
        assert(same_identity(listed[k], e));
    }
}

/// The final list is determined by what was found: no two lists are final
/// for the same entries.
pub proof fn final_order_unique(
    a: Seq<ResolvedView>,
    b: Seq<ResolvedView>,
    found: Seq<ResolvedView>,
)
    requires
        final_order(a, found),
        final_order(b, found),
    ensures
        a == b,
{
    ascending_lists_agree(a, b);
}

/// However often an identity was found, the final list holds it once: at
/// one position, and at no other.
pub proof fn final_order_holds_each_identity_once(
    listed: Seq<ResolvedView>,
    found: Seq<ResolvedView>,
    e: ResolvedView,
)
    requires
        final_order(listed, found),
        occurs(found, e),
    ensures
        exists|k: int|
            {
                &&& 0 <= k < listed.len()
                &&& same_identity(#[trigger] listed[k], e)
                &&& forall|m: int|
                    0 <= m < listed.len() && same_identity(#[trigger] listed[m], e) ==> m == k
            },
{
    let kept = first_occurrences(found);
    first_occurrences_cover(found);
    ascending_is_distinct(listed);
    let j = choose|j: int| 0 <= j < found.len() && same_identity(found[j], e);
    assert(found.contains(found[j]));
    let n = choose|n: int| 0 <= n < kept.len() && same_identity(kept[n], found[j]);
    assert(kept.contains(kept[n]));
    assert(listed.contains(kept[n]));
    let k = choose|k: int| 0 <= k < listed.len() && listed[k] == kept[n];
    assert(same_identity(listed[k], e));
    assert forall|m: int|
        0 <= m < listed.len() && same_identity(#[trigger] listed[m], e) implies m == k by {
        if m < k {
            assert(!same_identity(listed[m], listed[k]));
        } else if k < m {
            assert(!same_identity(listed[k], listed[m]));
        }
    }
}

} // verus!
