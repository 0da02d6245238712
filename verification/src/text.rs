//! Text primitives: prefix tests, splitting at a delimiter, and the
//! byte-wise order in which names and versions are listed.

use vstd::prelude::*;
use vstd::utf8::{encode_utf8, encode_utf8_decode_utf8};

verus! {

/// `a` and `b` hold the same bytes at every position below `k`.
pub open spec fn agree_below(a: Seq<u8>, b: Seq<u8>, k: int) -> bool {
    &&& 0 <= k <= a.len()
    &&& k <= b.len()
    &&& forall|j: int| 0 <= j < k ==> a[j] == b[j]
}

/// `a` and `b` part ways at position `k`, and `a` is the lesser there:
/// either `a` ends at `k` while `b` goes on, or `a` holds the smaller byte.
pub open spec fn lesser_at(a: Seq<u8>, b: Seq<u8>, k: int) -> bool {
    &&& agree_below(a, b, k)
    &&& k < b.len()
    &&& (k == a.len() || a[k] < b[k])
}

/// Strict lexicographic order on byte strings.
pub open spec fn bytes_before(a: Seq<u8>, b: Seq<u8>) -> bool {
    exists|k: int| lesser_at(a, b, k)
}

/// Strict order on texts: lexicographic on their UTF-8 encodings.
pub open spec fn text_before(a: Seq<char>, b: Seq<char>) -> bool {
    bytes_before(encode_utf8(a), encode_utf8(b))
}

/// `str::starts_with`, given a string as the pattern: whether `text` begins
/// with `prefix`. The contract restates the standard library's documentation
/// and is trusted.
#[verifier::external_body]
pub(crate) fn starts_with(text: &str, prefix: &str) -> (b: bool)
    ensures
        b == prefix@.is_prefix_of(text@),
{
    text.starts_with(prefix)
}

/// `str::split_once`, given a character as the delimiter: the parts of
/// `text` before and after the first `delimiter`, or `None` when `text`
/// holds none. The contract restates the standard library's documentation
/// and is trusted.
#[verifier::external_body]
pub(crate) fn split_once(text: &str, delimiter: char) -> (parts: Option<(&str, &str)>)
    ensures
        match parts {
            None => !text@.contains(delimiter),
            Some((head, tail)) => {
                &&& text@ == head@.push(delimiter) + tail@
                &&& !head@.contains(delimiter)
            },
        },
{
    text.split_once(delimiter)
}

/// Length of the longest common prefix of two byte slices.
fn common_prefix_len(a: &[u8], b: &[u8]) -> (k: usize)
    ensures
        agree_below(a@, b@, k as int),
        k < a@.len() && k < b@.len() ==> a@[k as int] != b@[k as int],
{
    let mut k: usize = 0;
    while k < a.len() && k < b.len() && a[k] == b[k]
        invariant
            agree_below(a@, b@, k as int),
        decreases a@.len() - k,
    {
        k = k + 1;
    }
    k
}

/// Whether `a` sorts strictly before `b`.
pub fn before(a: &str, b: &str) -> (r: bool)
    ensures
        r == text_before(a@, b@),
{
    let x = a.as_bytes();
    let y = b.as_bytes();
    let k = common_prefix_len(x, y);
    let r = k < y.len() && (k == x.len() || x[k] < y[k]);
    proof {
        if r {
            assert(lesser_at(x@, y@, k as int));
        } else {
            assert forall|j: int| !lesser_at(x@, y@, j) by {
                if lesser_at(x@, y@, j) {
                    if j < k {
                        assert(x@[j] == y@[j]);
                    } else if j > k {
                        assert(x@[k as int] == y@[k as int]);
                    }
                }
            }
        }
    }
    r
}

/// Walks two byte strings from position `i` to the first position at which
/// they differ or one of them ends.
proof fn first_difference(a: Seq<u8>, b: Seq<u8>, i: int) -> (k: int)
    requires
        agree_below(a, b, i),
    ensures
        agree_below(a, b, k),
        k == a.len() || k == b.len() || a[k] != b[k],
    decreases a.len() - i,
{
    if i == a.len() || i == b.len() || a[i] != b[i] {
        i
    } else {
        first_difference(a, b, i + 1)
    }
}

/// No byte string comes before itself.
pub proof fn bytes_before_irreflexive(a: Seq<u8>)
    ensures
        !bytes_before(a, a),
{
    assert forall|k: int| !lesser_at(a, a, k) by {}
}

/// If `a` comes before `b` and `b` before `c`, then `a` comes before `c`.
pub proof fn bytes_before_transitive(a: Seq<u8>, b: Seq<u8>, c: Seq<u8>)
    requires
        bytes_before(a, b),
        bytes_before(b, c),
    ensures
        bytes_before(a, c),
{
    let k1 = choose|k: int| lesser_at(a, b, k);
    let k2 = choose|k: int| lesser_at(b, c, k);
    let k = if k1 <= k2 { k1 } else { k2 };
    assert(lesser_at(a, c, k));
}

/// Of two different byte strings, one comes before the other.
pub proof fn bytes_before_connected(a: Seq<u8>, b: Seq<u8>)
    requires
        a != b,
    ensures
        bytes_before(a, b) || bytes_before(b, a),
{
    let k = first_difference(a, b, 0);
    if k == a.len() && k == b.len() {
        assert(a =~= b);
    } else if k == a.len() || (k < b.len() && a[k] < b[k]) {
        assert(lesser_at(a, b, k));
    } else {
        assert forall|j: int| 0 <= j < k implies b[j] == a[j] by {}
        assert(lesser_at(b, a, k));
    }
}

/// No text comes before itself.
pub proof fn text_before_irreflexive(a: Seq<char>)
    ensures
        !text_before(a, a),
{
    bytes_before_irreflexive(encode_utf8(a));
}

/// The order on texts is transitive.
pub proof fn text_before_transitive(a: Seq<char>, b: Seq<char>, c: Seq<char>)
    requires
        text_before(a, b),
        text_before(b, c),
    ensures
        text_before(a, c),
{
    bytes_before_transitive(encode_utf8(a), encode_utf8(b), encode_utf8(c));
}

/// Of two different texts, one comes before the other.
pub proof fn text_before_connected(a: Seq<char>, b: Seq<char>)
    requires
        a != b,
    ensures
        text_before(a, b) || text_before(b, a),
{
    encode_utf8_decode_utf8(a);
    encode_utf8_decode_utf8(b);
    bytes_before_connected(encode_utf8(a), encode_utf8(b));
}

} // verus!
