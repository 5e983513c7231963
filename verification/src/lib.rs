//! Ordered-subsequence matching for test assertions.
//!
//! Given an observed sequence and an expected sequence, the matcher decides
//! whether the expected elements appear within the observed ones, in the
//! same relative order, allowing arbitrary other elements before, between
//! and after them. On failure it reports exactly which trailing expected
//! elements were never reached.

use vstd::prelude::*;
use vstd::std_specs::cmp::PartialEqSpec;

pub mod laws;

verus! {

/// The result of an ordered, skipping containment check.
///
/// `Yes` means every expected element was found, in order. `No` carries the
/// suffix of the expected sequence that was never matched, starting at the
/// first element the scan could not find; it is non-empty whenever this
/// variant is produced by the matcher.
#[must_use]
pub enum ContainsAtLeastOrdered<T> {
    Yes,
    No { not_found: Vec<T> },
}

impl<T> ContainsAtLeastOrdered<T> {
    /// The invariant of a matcher outcome: a failed match always carries at
    /// least one missing element.
    pub open spec fn is_wf(&self) -> bool {
        self matches ContainsAtLeastOrdered::No { not_found } ==> not_found@.len() > 0
    }

    /// Confirm a successful outcome. A failed outcome would be reported as a
    /// test failure by the host harness, so callers must establish success
    /// beforehand; nothing is left to do at run time.
    pub fn assert_this(&self)
        requires
            self is Yes,
    {
    }

    /// Confirm that the outcome is not valid, i.e. that the match failed.
    /// A successful outcome would be reported as a test failure by the host
    /// harness, so callers must establish failure beforehand.
    pub fn assert_invalid(&self)
        requires
            self is No,
    {
    }

    /// Return the remainder of the elements which were expected, but were
    /// not detected in order. If all elements were found, returns `None`.
    /// Otherwise returns `Some(&[T])`.
    pub fn elements_not_found(&self) -> (r: Option<&[T]>)
        ensures
            self is Yes ==> r is None,
            (*self) matches ContainsAtLeastOrdered::No { not_found } ==> (r matches Some(s)
                && s@ == not_found@),
    {
        match self {
            ContainsAtLeastOrdered::Yes => None,
            ContainsAtLeastOrdered::No { not_found } => Some(not_found.as_slice()),
        }
    }
}

impl<T> vstd::std_specs::convert::FromSpecImpl<ContainsAtLeastOrdered<T>> for bool {
    open spec fn obeys_from_spec() -> bool {
        true
    }

    open spec fn from_spec(v: ContainsAtLeastOrdered<T>) -> bool {
        v is Yes
    }
}

impl<T> From<ContainsAtLeastOrdered<T>> for bool {
    /// Convert the outcome to a plain boolean: `true` exactly when every
    /// expected element was found in order.
    fn from(item: ContainsAtLeastOrdered<T>) -> (r: bool)
        ensures
            r == (item is Yes),
    {
        match item {
            ContainsAtLeastOrdered::Yes => true,
            ContainsAtLeastOrdered::No { .. } => false,
        }
    }
}

/// One step of the greedy scan: an observed element advances the cursor by
/// one exactly when the cursor still points into `expected` and the element
/// equals the element at the cursor; otherwise it is noise and the cursor
/// stays.
pub open spec fn cursor_step<T: PartialEq>(elem: T, expected: Seq<T>, cursor: int) -> int {
    if 0 <= cursor < expected.len() && elem.eq_spec(&expected[cursor]) {
        cursor + 1
    } else {
        cursor
    }
}

/// The cursor position into `expected` after greedily scanning all of
/// `observed`, starting from `cursor`. A cursor equal to `expected.len()`
/// means every expected element has been matched.
pub open spec fn cursor_after<T: PartialEq>(observed: Seq<T>, expected: Seq<T>, cursor: int) -> int
    decreases observed.len(),
{
    if observed.len() == 0 {
        cursor
    } else {
        cursor_after(observed.drop_first(), expected, cursor_step(observed[0], expected, cursor))
    }
}

/// Whether `expected` appears as an ordered subsequence of `observed` under
/// the greedy left-to-right policy: the scan's cursor reaches the end of
/// `expected`.
pub open spec fn found_in_order<T: PartialEq>(observed: Seq<T>, expected: Seq<T>) -> bool {
    cursor_after(observed, expected, 0) == expected.len()
}

/// The suffix of `expected` from the first element the greedy scan never
/// matched; empty exactly when the match succeeds.
pub open spec fn unmatched_suffix<T: PartialEq>(observed: Seq<T>, expected: Seq<T>) -> Seq<T> {
    expected.skip(cursor_after(observed, expected, 0))
}

/// A cursor at or past the end of `expected` never moves.
pub(crate) proof fn lemma_cursor_after_saturated<T: PartialEq>(observed: Seq<T>, expected: Seq<T>, cursor: int)
    requires
        cursor >= expected.len(),
    ensures
        cursor_after(observed, expected, cursor) == cursor,
    decreases observed.len(),
{
    if observed.len() > 0 {
        lemma_cursor_after_saturated(observed.drop_first(), expected, cursor);
    }
}

/// The scan never moves the cursor backwards and never past the end of
/// `expected`.
pub(crate) proof fn lemma_cursor_after_bounds<T: PartialEq>(observed: Seq<T>, expected: Seq<T>, cursor: int)
    requires
        0 <= cursor <= expected.len(),
    ensures
        cursor <= cursor_after(observed, expected, cursor) <= expected.len(),
    decreases observed.len(),
{
    if observed.len() > 0 {
        lemma_cursor_after_bounds(
            observed.drop_first(),
            expected,
            cursor_step(observed[0], expected, cursor),
        );
    }
}

/// Scanning one more observed element extends the scan of the prefix before
/// it by a single cursor step.
proof fn lemma_cursor_after_unfold_at<T: PartialEq>(
    observed: Seq<T>,
    expected: Seq<T>,
    cursor: int,
    i: int,
)
    requires
        0 <= i < observed.len(),
    ensures
        cursor_after(observed.skip(i), expected, cursor) == cursor_after(
            observed.skip(i + 1),
            expected,
            cursor_step(observed[i], expected, cursor),
        ),
{
    assert(observed.skip(i)[0] == observed[i]);
    assert(observed.skip(i).drop_first() =~= observed.skip(i + 1));
}

/// Test whether the `expected` elements are found in `observed`, and require
/// them to be found in the same order as defined by `expected`.
///
/// The scan is greedy and never backtracks: the first observed element equal
/// to the element at the cursor always satisfies that cursor position. On
/// failure, the returned `not_found` is exactly the suffix of `expected`
/// from the first element the scan never matched.
pub fn contains_at_least_ordered<T: PartialEq>(observed: Vec<T>, expected: Vec<T>) -> (r:
    ContainsAtLeastOrdered<T>)
    requires
        T::obeys_eq_spec(),
    ensures
        (r is Yes) == found_in_order(observed@, expected@),
        r matches ContainsAtLeastOrdered::No { not_found } ==> {
            &&& not_found@ == unmatched_suffix(observed@, expected@)
            &&& not_found@.len() > 0
        },
        r.is_wf(),
{
    // An empty expected sequence is vacuously contained in anything.
    if expected.len() == 0 {
        proof {
            lemma_cursor_after_saturated(observed@, expected@, 0);
        }
        return ContainsAtLeastOrdered::Yes;
    }
    let n: usize = expected.len();
    let mut cursor: usize = 0;
    let mut i: usize = 0;
    proof {
        assert(observed@.skip(0) =~= observed@);
    }
    while i < observed.len()
        invariant
            T::obeys_eq_spec(),
            n == expected@.len(),
            0 <= i <= observed@.len(),
            0 <= cursor < n,
            cursor_after(observed@, expected@, 0) == cursor_after(
                observed@.skip(i as int),
                expected@,
                cursor as int,
            ),
        decreases observed@.len() - i,
    {
        let o = &observed[i];
        let e = &expected[cursor];
        proof {
            lemma_cursor_after_unfold_at(observed@, expected@, cursor as int, i as int);
        }
        if o == e {
            if cursor + 1 < n {
                // This observed element satisfies the current cursor
                // position; commit and move to the next expected element.
                cursor = cursor + 1;
            } else {
                // The last expected element has been matched; the rest of
                // `observed` cannot change the outcome.
                proof {
                    lemma_cursor_after_saturated(
                        observed@.skip(i as int + 1),
                        expected@,
                        cursor as int + 1,
                    );
                }
                return ContainsAtLeastOrdered::Yes;
            }
        }
        // Any other element is noise: the cursor stays where it is.
        i = i + 1;
    }
    // `observed` is exhausted with the cursor short of the end: the element
    // at the cursor and everything after it was never matched.
    proof {
        assert(observed@.skip(i as int) =~= Seq::<T>::empty());
        assert(unmatched_suffix(observed@, expected@) =~= expected@.skip(cursor as int));
    }
    let mut matched_prefix = expected;
    let not_found = matched_prefix.split_off(cursor);
    ContainsAtLeastOrdered::No { not_found }
}

} // verus!
