use ematch_bench::error::ConfigError;
use ematch_bench::strategy::{select_strategies, Strategy};

#[test]
fn selector_all_tries_join_based_first() {
    assert_eq!(
        select_strategies("all"),
        Ok(vec![Strategy::GenericJoin, Strategy::EMatch])
    );
}

#[test]
fn selector_gj_is_join_based_alone() {
    assert_eq!(select_strategies("gj"), Ok(vec![Strategy::GenericJoin]));
}

#[test]
fn selector_em_is_exhaustive_alone() {
    assert_eq!(select_strategies("em"), Ok(vec![Strategy::EMatch]));
}

#[test]
fn unknown_selector_is_a_configuration_fault() {
    let fault = select_strategies("both").unwrap_err();
    assert_eq!(fault, ConfigError::UnknownStrategy("both".to_string()));
    assert_eq!(fault.message(), "strategy should be one of all, gj, or em");
}

#[test]
fn selector_is_matched_exactly() {
    assert!(select_strategies("ALL").is_err());
    assert!(select_strategies(" all").is_err());
    assert!(select_strategies("").is_err());
    assert!(select_strategies("gj,em").is_err());
}

#[test]
fn join_based_repeats_twice_exhaustive_once() {
    assert_eq!(Strategy::GenericJoin.repeats(), 2);
    assert_eq!(Strategy::EMatch.repeats(), 1);
}

#[test]
fn tags_are_the_row_names_of_the_strategies() {
    assert_eq!(Strategy::GenericJoin.tag(), "GenericJoin");
    assert_eq!(Strategy::EMatch.tag(), "EMatch");
}

#[test]
fn unknown_benchmark_message_names_the_benchmark() {
    let fault = ConfigError::UnknownBenchmark("lattice".to_string());
    assert_eq!(fault.message(), "unknown benchmark: lattice");
}
