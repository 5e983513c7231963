use contains_ordered::contains_at_least_ordered;
use contains_ordered::ContainsAtLeastOrdered;

#[derive(Debug, PartialEq, Clone)]
enum Tag {
    A,
    B,
    C,
    D,
}

fn remaining_of(outcome: &ContainsAtLeastOrdered<Tag>) -> Option<Vec<Tag>> {
    outcome.elements_not_found().map(|s| s.to_vec())
}

// Vacuous truth: an empty expectation matches any observed sequence.
#[test]
fn vacuous_empty_against_empty() {
    let outcome = contains_at_least_ordered(Vec::<Tag>::new(), Vec::new());
    assert!(bool::from(outcome));
}

#[test]
fn vacuous_empty_against_noise() {
    let outcome = contains_at_least_ordered(vec![Tag::C, Tag::D, Tag::C], Vec::new());
    assert!(bool::from(outcome));
}

// Noise tolerance: extra elements that never equal the targeted expected
// element change neither the outcome nor the reported remainder.
#[test]
fn noise_keeps_a_match() {
    let plain = contains_at_least_ordered(vec![Tag::A, Tag::B], vec![Tag::A, Tag::B]);
    let noisy = contains_at_least_ordered(
        vec![Tag::C, Tag::A, Tag::D, Tag::B, Tag::C],
        vec![Tag::A, Tag::B],
    );
    assert!(bool::from(plain));
    assert!(bool::from(noisy));
}

#[test]
fn noise_keeps_the_remainder() {
    let plain = contains_at_least_ordered(vec![Tag::A], vec![Tag::A, Tag::B, Tag::B]);
    let noisy = contains_at_least_ordered(
        vec![Tag::C, Tag::A, Tag::D],
        vec![Tag::A, Tag::B, Tag::B],
    );
    assert_eq!(remaining_of(&plain), Some(vec![Tag::B, Tag::B]));
    assert_eq!(remaining_of(&noisy), Some(vec![Tag::B, Tag::B]));
}

// Order sensitivity: the same observed pair matches one expected order and
// fails the reversed one.
#[test]
fn reversed_expectation_fails() {
    let in_order = contains_at_least_ordered(vec![Tag::A, Tag::B], vec![Tag::A, Tag::B]);
    let reversed = contains_at_least_ordered(vec![Tag::A, Tag::B], vec![Tag::B, Tag::A]);
    assert!(bool::from(in_order));
    assert!(!bool::from(reversed));
}

// Greedy commitment: the first equal observed element always satisfies the
// current cursor position and is never reused for a later one.
#[test]
fn consumed_element_is_not_reused() {
    let outcome = contains_at_least_ordered(vec![Tag::A, Tag::B], vec![Tag::A, Tag::A]);
    assert_eq!(remaining_of(&outcome), Some(vec![Tag::A]));
}

// Remainder exactness: the remainder is the exact suffix of the expectation
// from the first element never matched.
#[test]
fn remainder_is_the_exact_suffix() {
    let outcome = contains_at_least_ordered(
        vec![Tag::B, Tag::A],
        vec![Tag::A, Tag::B, Tag::C, Tag::D],
    );
    assert_eq!(remaining_of(&outcome), Some(vec![Tag::B, Tag::C, Tag::D]));
}

// Concrete scenarios.
#[test]
fn scenario_empty_both() {
    let outcome = contains_at_least_ordered(Vec::<Tag>::new(), Vec::new());
    assert!(matches!(outcome, ContainsAtLeastOrdered::Yes));
}

#[test]
fn scenario_noise_in_the_middle() {
    let outcome = contains_at_least_ordered(vec![Tag::A, Tag::C, Tag::B], vec![Tag::A, Tag::B]);
    assert!(matches!(outcome, ContainsAtLeastOrdered::Yes));
}

#[test]
fn scenario_wrong_order() {
    let outcome = contains_at_least_ordered(vec![Tag::B, Tag::A], vec![Tag::A, Tag::B]);
    // B arrives first and is skipped as noise, A is consumed and moves the
    // cursor to B, and the observed input ends with B never matched.
    assert_eq!(remaining_of(&outcome), Some(vec![Tag::B]));
}

#[test]
fn scenario_repeated_expectation() {
    let outcome = contains_at_least_ordered(vec![Tag::A], vec![Tag::A, Tag::A, Tag::A]);
    assert_eq!(remaining_of(&outcome), Some(vec![Tag::A, Tag::A]));
}

#[test]
fn scenario_greedy_trace() {
    let outcome = contains_at_least_ordered(
        vec![Tag::A, Tag::B, Tag::B, Tag::C, Tag::A],
        vec![Tag::A, Tag::B, Tag::A, Tag::B, Tag::A],
    );
    assert_eq!(remaining_of(&outcome), Some(vec![Tag::B, Tag::A]));
}

#[test]
fn scenario_single_value() {
    let outcome = contains_at_least_ordered(vec![Tag::D], vec![Tag::D]);
    assert!(matches!(outcome, ContainsAtLeastOrdered::Yes));
}

// The boolean conversion is true exactly on a successful outcome, and a
// successful outcome reports no missing elements.
#[test]
fn bool_conversion_and_query_agree() {
    let matched = contains_at_least_ordered(vec![Tag::A], vec![Tag::A]);
    assert!(matched.elements_not_found().is_none());
    assert!(bool::from(matched));

    let unmatched = contains_at_least_ordered(vec![Tag::A], vec![Tag::B]);
    assert!(unmatched.elements_not_found().is_some());
    assert!(!bool::from(unmatched));
}
