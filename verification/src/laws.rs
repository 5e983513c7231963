//! Laws of the ordered-subsequence matcher, stated over its specification
//! model and proved once for all inputs.

use crate::cursor_after;
use crate::cursor_step;
use crate::found_in_order;
use crate::lemma_cursor_after_bounds;
use crate::lemma_cursor_after_saturated;
use crate::unmatched_suffix;
use vstd::prelude::*;
use vstd::std_specs::cmp::PartialEqSpec;

verus! {

/// Scanning a concatenation scans the second part from wherever the first
/// part left the cursor.
proof fn lemma_cursor_after_concat<T: PartialEq>(
    left: Seq<T>,
    right: Seq<T>,
    expected: Seq<T>,
    cursor: int,
)
    ensures
        cursor_after(left + right, expected, cursor) == cursor_after(
            right,
            expected,
            cursor_after(left, expected, cursor),
        ),
    decreases left.len(),
{
    if left.len() == 0 {
        assert(left + right =~= right);
    } else {
        assert((left + right)[0] == left[0]);
        assert((left + right).drop_first() =~= left.drop_first() + right);
        lemma_cursor_after_concat(
            left.drop_first(),
            right,
            expected,
            cursor_step(left[0], expected, cursor),
        );
    }
}

/// Vacuous truth: matching any observed sequence, including an empty one,
/// against an empty expected sequence always succeeds.
pub proof fn lemma_empty_expected_always_found<T: PartialEq>(observed: Seq<T>)
    ensures
        found_in_order(observed, Seq::<T>::empty()),
{
    lemma_cursor_after_saturated(observed, Seq::<T>::empty(), 0);
}

/// Noise tolerance: inserting an extra element anywhere in the observed
/// sequence never changes the outcome, provided the element does not equal
/// the expected element the scan targets when it reaches the insertion
/// point. Neither whether the match succeeds nor which expected elements are
/// reported missing changes.
pub proof fn lemma_noise_tolerance<T: PartialEq>(
    observed: Seq<T>,
    expected: Seq<T>,
    k: int,
    noise: T,
)
    requires
        0 <= k <= observed.len(),
        ({
            let c = cursor_after(observed.take(k), expected, 0);
            c < expected.len() ==> !noise.eq_spec(&expected[c])
        }),
    ensures
        found_in_order(observed.insert(k, noise), expected) == found_in_order(observed, expected),
        unmatched_suffix(observed.insert(k, noise), expected) == unmatched_suffix(
            observed,
            expected,
        ),
{
    let c = cursor_after(observed.take(k), expected, 0);
    lemma_cursor_after_bounds(observed.take(k), expected, 0);
    assert(observed =~= observed.take(k) + observed.skip(k));
    lemma_cursor_after_concat(observed.take(k), observed.skip(k), expected, 0);
    let noisy_tail = seq![noise] + observed.skip(k);
    assert(observed.insert(k, noise) =~= observed.take(k) + noisy_tail);
    lemma_cursor_after_concat(observed.take(k), noisy_tail, expected, 0);
    assert(noisy_tail[0] == noise);
    assert(noisy_tail.drop_first() =~= observed.skip(k));
    assert(cursor_step(noise, expected, c) == c);
}

/// Order sensitivity: for two elements that each equal themselves but where
/// the first does not equal the second, the observed pair is found against
/// the expectation in the same order, while the reversed expectation fails
/// on the very same observed pair. Containment alone is not enough; order
/// matters.
pub proof fn lemma_order_sensitivity<T: PartialEq>(a: T, b: T)
    requires
        a.eq_spec(&a),
        b.eq_spec(&b),
        !a.eq_spec(&b),
    ensures
        found_in_order(seq![a, b], seq![a, b]),
        !found_in_order(seq![a, b], seq![b, a]),
{
    let observed = seq![a, b];
    assert(observed.drop_first() =~= seq![b]);
    assert(seq![b].drop_first() =~= Seq::<T>::empty());
    assert(observed[0] == a && observed[1] == b && seq![b][0] == b);
    assert(seq![b, a][0] == b && seq![b, a][1] == a);
    assert(cursor_after(observed, seq![a, b], 0) == cursor_after(seq![b], seq![a, b], 1));
    assert(cursor_step(b, observed, 1) == 2);
    assert(cursor_after(seq![b], seq![a, b], 1) == cursor_after(Seq::<T>::empty(), observed, 2));
    assert(cursor_after(observed, seq![b, a], 0) == cursor_after(seq![b], seq![b, a], 0));
    assert(cursor_step(b, seq![b, a], 0) == 1);
    assert(cursor_after(seq![b], seq![b, a], 0) == cursor_after(Seq::<T>::empty(), seq![b, a], 1));
}

/// Greedy commitment: after the scan has consumed the first `j` observed
/// elements and committed the cursor, the rest of the match is decided by
/// the remaining observed elements alone, starting from that committed
/// cursor — no observed element before the commitment point is ever reused
/// for a later expected position — and the committed cursor never moves
/// back.
pub proof fn lemma_greedy_commitment<T: PartialEq>(observed: Seq<T>, expected: Seq<T>, j: int)
    requires
        0 <= j <= observed.len(),
    ensures
        cursor_after(observed, expected, 0) == cursor_after(
            observed.skip(j),
            expected,
            cursor_after(observed.take(j), expected, 0),
        ),
        cursor_after(observed.take(j), expected, 0) <= cursor_after(observed, expected, 0),
{
    assert(observed =~= observed.take(j) + observed.skip(j));
    lemma_cursor_after_concat(observed.take(j), observed.skip(j), expected, 0);
    lemma_cursor_after_bounds(observed.take(j), expected, 0);
    lemma_cursor_after_bounds(
        observed.skip(j),
        expected,
        cursor_after(observed.take(j), expected, 0),
    );
}

} // verus!
