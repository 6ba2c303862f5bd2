use ematch_bench::record::{timeout_sentinel, total_bindings, SearchOutcome};

#[test]
fn bindings_add_up_over_all_matches() {
    assert_eq!(total_bindings(&[3, 1, 4, 1, 5]), Some(14));
    assert_eq!(total_bindings(&[7]), Some(7));
}

#[test]
fn no_match_means_no_binding() {
    assert_eq!(total_bindings(&[]), Some(0));
}

#[test]
fn a_sum_beyond_the_machine_word_is_refused() {
    assert_eq!(total_bindings(&[usize::MAX, 1]), None);
    assert_eq!(total_bindings(&[usize::MAX, 0]), Some(usize::MAX));
    assert_eq!(total_bindings(&[1, usize::MAX - 1, 1, 0]), None);
}

#[test]
fn sentinel_is_the_timeout_behind_a_minus_sign() {
    assert_eq!(timeout_sentinel(60_000_000), "-60000000");
    assert_eq!(timeout_sentinel(1), "-1");
    assert_eq!(timeout_sentinel(0), "-0");
}

#[test]
fn a_result_in_time_records_its_microseconds_and_its_bindings() {
    let outcome = SearchOutcome::Finished { elapsed_micros: 1234, bindings: vec![2, 3] };
    assert!(outcome.fits());
    assert_eq!(outcome.measurement(60_000_000), ("1234".to_string(), 5));
}

#[test]
fn a_result_without_matches_records_zero_bindings() {
    let outcome = SearchOutcome::Finished { elapsed_micros: 0, bindings: vec![] };
    assert_eq!(outcome.measurement(5), ("0".to_string(), 0));
}

#[test]
fn a_timeout_records_the_sentinel_and_no_binding() {
    let outcome = SearchOutcome::TimedOut;
    assert!(outcome.fits());
    assert_eq!(outcome.measurement(60_000_000), ("-60000000".to_string(), 0));
    assert_eq!(outcome.measurement(2_500_000), ("-2500000".to_string(), 0));
}

#[test]
fn a_zero_deadline_turns_every_outcome_into_a_timeout() {
    let finished = SearchOutcome::Finished { elapsed_micros: 17, bindings: vec![4, 4] };
    assert_eq!(finished.measurement(0), ("-0".to_string(), 0));
    assert_eq!(SearchOutcome::TimedOut.measurement(0), ("-0".to_string(), 0));
}

#[test]
fn a_slow_result_that_still_arrived_is_recorded_as_measured() {
    let outcome = SearchOutcome::Finished { elapsed_micros: 70, bindings: vec![1] };
    assert_eq!(outcome.measurement(60), ("70".to_string(), 1));
}

#[test]
fn an_outcome_whose_bindings_overflow_does_not_fit() {
    let outcome = SearchOutcome::Finished { elapsed_micros: 1, bindings: vec![usize::MAX, 2] };
    assert!(!outcome.fits());
}

#[test]
fn elapsed_field_is_a_numeral_or_the_sentinel_never_both() {
    let outcomes = [
        SearchOutcome::Finished { elapsed_micros: 0, bindings: vec![] },
        SearchOutcome::Finished { elapsed_micros: u128::MAX, bindings: vec![1, 2, 3] },
        SearchOutcome::TimedOut,
    ];
    for timeout in [0u128, 1, 60_000_000] {
        for outcome in outcomes.iter() {
            let (time, _) = outcome.measurement(timeout);
            assert!(!time.is_empty());
            let numeral = time.chars().all(|c| c.is_ascii_digit());
            let sentinel = time == format!("-{}", timeout);
            assert!(numeral != sentinel, "{}", time);
        }
    }
}
