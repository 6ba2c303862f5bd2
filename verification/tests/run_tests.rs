use ematch_bench::bench::{math_bench, Bench};
use ematch_bench::options::{Opt, DEFAULT_TIMEOUT_MICROS, ITER_LIMIT, TIME_LIMIT_SECS};
use ematch_bench::record::{BenchRecord, SearchOutcome};
use ematch_bench::run::{run_bench, Action, Event, GrowthReport, Phase, StopReason};
use ematch_bench::strategy::Strategy;

fn options(sizes: Vec<usize>, timeout_micros: u128) -> Opt {
    Opt {
        benchmarks: vec!["math".to_string()],
        sizes,
        filename: "out/benchmark.csv".to_string(),
        strategy: "all".to_string(),
        samples: 1,
        timeout_micros,
        verbose: false,
    }
}

fn two_patterns() -> Bench {
    Bench {
        name: "toy".to_string(),
        start_exprs: vec!["(+ a b)".to_string()],
        rules: vec![],
        bench_pats: vec!["(+ ?a ?b)".to_string(), "?a".to_string()],
    }
}

fn both() -> Vec<Strategy> {
    vec![Strategy::GenericJoin, Strategy::EMatch]
}

fn report(nodes: usize, classes: usize, stop: StopReason) -> GrowthReport {
    GrowthReport { nodes, classes, stop }
}

/// Drives a run to its end: growth phase `k` answers with `reports[k]`, and
/// every search with what `search` says.
fn drive(
    opt: &Opt,
    bench: Bench,
    strategies: &[Strategy],
    reports: &[GrowthReport],
    search: &dyn Fn(usize, usize, Strategy) -> SearchOutcome,
) -> Vec<Action> {
    let (mut run, mut action) = run_bench(opt, bench, strategies);
    let mut log = vec![action.clone()];
    let mut grown = 0;
    loop {
        let event = match &action {
            Action::Grow { .. } => {
                grown += 1;
                Event::Grown(reports[grown - 1])
            }
            Action::Search { tier, pattern, strategy, .. } => {
                Event::Searched(search(*tier, *pattern, *strategy))
            }
            Action::Record(_) => Event::Recorded,
            Action::Finish => break,
        };
        assert!(run.accepts(&event));
        let (next, reply) = run.step(event);
        run = next;
        action = reply;
        log.push(action.clone());
    }
    assert_eq!(run.phase(), Phase::Finished);
    log
}

fn rows(log: &[Action]) -> Vec<BenchRecord> {
    log.iter()
        .filter_map(|a| match a {
            Action::Record(r) => Some(r.clone()),
            _ => None,
        })
        .collect()
}

fn quick(_tier: usize, pattern: usize, _strategy: Strategy) -> SearchOutcome {
    SearchOutcome::Finished { elapsed_micros: 100 + pattern as u128, bindings: vec![1, 2, pattern] }
}

#[test]
fn a_run_starts_by_asking_for_growth_to_the_first_ceiling() {
    let opt = options(vec![10_000, 100_000], DEFAULT_TIMEOUT_MICROS);
    let (run, action) = run_bench(&opt, two_patterns(), &both());
    assert_eq!(run.phase(), Phase::Growing);
    assert_eq!(
        action,
        Action::Grow { tier: 0, node_limit: 10_000, iter_limit: 1000, time_limit_secs: 4000 }
    );
    assert_eq!(ITER_LIMIT, 1000);
    assert_eq!(TIME_LIMIT_SECS, 4000);
    assert_eq!(DEFAULT_TIMEOUT_MICROS, 60_000_000);
}

#[test]
fn a_run_without_tiers_is_over_at_once() {
    let opt = options(vec![], DEFAULT_TIMEOUT_MICROS);
    let (run, action) = run_bench(&opt, two_patterns(), &both());
    assert_eq!(run.phase(), Phase::Finished);
    assert_eq!(action, Action::Finish);
    assert!(!run.accepts(&Event::Recorded));
    assert!(!run.accepts(&Event::Grown(report(1, 1, StopReason::Saturated))));
}

#[test]
fn a_run_takes_only_the_event_it_waits_for() {
    let opt = options(vec![10], DEFAULT_TIMEOUT_MICROS);
    let (run, _) = run_bench(&opt, two_patterns(), &both());
    assert!(run.accepts(&Event::Grown(report(5, 3, StopReason::NodeLimit))));
    assert!(!run.accepts(&Event::Recorded));
    assert!(!run.accepts(&Event::Searched(SearchOutcome::TimedOut)));
    let (run, action) = run.step(Event::Grown(report(5, 3, StopReason::NodeLimit)));
    assert_eq!(run.phase(), Phase::Searching);
    assert_eq!(
        action,
        Action::Search {
            tier: 0,
            pattern: 0,
            strategy: Strategy::GenericJoin,
            timeout_micros: DEFAULT_TIMEOUT_MICROS
        }
    );
    assert!(!run.accepts(&Event::Recorded));
    assert!(run.accepts(&Event::Searched(SearchOutcome::TimedOut)));
    let overflow =
        SearchOutcome::Finished { elapsed_micros: 1, bindings: vec![usize::MAX, usize::MAX] };
    assert!(!run.accepts(&Event::Searched(overflow)));
    let (run, action) = run.step(Event::Searched(SearchOutcome::TimedOut));
    assert_eq!(run.phase(), Phase::Recording);
    assert!(matches!(action, Action::Record(_)));
    assert!(run.accepts(&Event::Recorded));
    assert!(!run.accepts(&Event::Searched(SearchOutcome::TimedOut)));
}

#[test]
fn one_tier_is_grown_then_searched_pattern_by_pattern() {
    let opt = options(vec![50], 9_000_000);
    let reports = [report(42, 17, StopReason::NodeLimit)];
    let log = drive(&opt, two_patterns(), &both(), &reports, &quick);
    let search = |pattern, strategy| Action::Search {
        tier: 0,
        pattern,
        strategy,
        timeout_micros: 9_000_000,
    };
    let row = |algo: &str, pattern: &str, time: &str, result_size, repeat_time| {
        Action::Record(BenchRecord {
            benchmark: "toy".to_string(),
            node_size: 42,
            class_size: 17,
            algo: algo.to_string(),
            pattern: pattern.to_string(),
            time: time.to_string(),
            result_size,
            repeat_time,
        })
    };
    assert_eq!(
        log,
        vec![
            Action::Grow { tier: 0, node_limit: 50, iter_limit: 1000, time_limit_secs: 4000 },
            search(0, Strategy::GenericJoin),
            row("GenericJoin", "(+ ?a ?b)", "100", 3, 0),
            search(0, Strategy::GenericJoin),
            row("GenericJoin", "(+ ?a ?b)", "100", 3, 1),
            search(0, Strategy::EMatch),
            row("EMatch", "(+ ?a ?b)", "100", 3, 0),
            search(1, Strategy::GenericJoin),
            row("GenericJoin", "?a", "101", 4, 0),
            search(1, Strategy::GenericJoin),
            row("GenericJoin", "?a", "101", 4, 1),
            search(1, Strategy::EMatch),
            row("EMatch", "?a", "101", 4, 0),
            Action::Finish,
        ]
    );
}

#[test]
fn every_tier_is_grown_in_order_when_none_saturates() {
    let opt = options(vec![10, 20, 30], DEFAULT_TIMEOUT_MICROS);
    let reports = [
        report(11, 4, StopReason::NodeLimit),
        report(21, 9, StopReason::IterationLimit),
        report(25, 9, StopReason::TimeLimit),
    ];
    let log = drive(&opt, two_patterns(), &[Strategy::EMatch], &reports, &quick);
    let growth: Vec<(usize, usize)> = log
        .iter()
        .filter_map(|a| match a {
            Action::Grow { tier, node_limit, .. } => Some((*tier, *node_limit)),
            _ => None,
        })
        .collect();
    assert_eq!(growth, vec![(0, 10), (1, 20), (2, 30)]);
    let sizes: Vec<(usize, usize)> =
        rows(&log).iter().map(|r| (r.node_size, r.class_size)).collect();
    assert_eq!(sizes, vec![(11, 4), (11, 4), (21, 9), (21, 9), (25, 9), (25, 9)]);
}

#[test]
fn saturation_makes_its_tier_the_last() {
    let opt = options(vec![10, 20, 30, 40], DEFAULT_TIMEOUT_MICROS);
    let reports = [report(11, 4, StopReason::NodeLimit), report(15, 5, StopReason::Saturated)];
    let log = drive(&opt, two_patterns(), &both(), &reports, &quick);
    let growth: Vec<usize> = log
        .iter()
        .filter_map(|a| match a {
            Action::Grow { tier, .. } => Some(*tier),
            _ => None,
        })
        .collect();
    assert_eq!(growth, vec![0, 1]);
    let searched: Vec<usize> = log
        .iter()
        .filter_map(|a| match a {
            Action::Search { tier, .. } => Some(*tier),
            _ => None,
        })
        .collect();
    assert_eq!(searched, vec![0, 0, 0, 0, 0, 0, 1, 1, 1, 1, 1, 1]);
    assert_eq!(rows(&log).len(), 12);
    assert_eq!(log.last(), Some(&Action::Finish));
}

#[test]
fn the_saturated_tier_is_still_searched() {
    let opt = options(vec![10, 20], DEFAULT_TIMEOUT_MICROS);
    let reports = [report(7, 3, StopReason::Saturated)];
    let log = drive(&opt, two_patterns(), &both(), &reports, &quick);
    let recorded = rows(&log);
    assert_eq!(recorded.len(), 6);
    assert!(recorded.iter().all(|r| r.node_size == 7 && r.class_size == 3));
}

#[test]
fn limits_are_no_failures_and_do_not_end_the_run() {
    for stop in [StopReason::NodeLimit, StopReason::IterationLimit, StopReason::TimeLimit] {
        let opt = options(vec![10, 20], DEFAULT_TIMEOUT_MICROS);
        let reports = [report(11, 4, stop), report(12, 4, stop)];
        let log = drive(&opt, two_patterns(), &[Strategy::EMatch], &reports, &quick);
        assert_eq!(rows(&log).len(), 4);
    }
}

#[test]
fn both_strategies_record_two_join_based_rows_and_one_exhaustive_row_per_pattern() {
    let opt = options(vec![10_000, 100_000], DEFAULT_TIMEOUT_MICROS);
    let reports =
        [report(10_001, 900, StopReason::NodeLimit), report(100_050, 7000, StopReason::NodeLimit)];
    let bench = math_bench();
    let patterns = bench.bench_pats.clone();
    let log = drive(&opt, bench, &both(), &reports, &quick);
    let recorded = rows(&log);
    assert_eq!(recorded.len(), 2 * 10 * 3);
    for nodes in [10_001, 100_050] {
        for pattern in patterns.iter() {
            let count = |algo: &str| {
                recorded
                    .iter()
                    .filter(|r| r.node_size == nodes && &r.pattern == pattern && r.algo == algo)
                    .count()
            };
            assert_eq!(count("GenericJoin"), 2);
            assert_eq!(count("EMatch"), 1);
        }
    }
    let repeats: Vec<usize> = recorded.iter().take(6).map(|r| r.repeat_time).collect();
    assert_eq!(repeats, vec![0, 1, 0, 0, 1, 0]);
}

#[test]
fn a_single_strategy_records_only_its_own_rows() {
    let opt = options(vec![10], DEFAULT_TIMEOUT_MICROS);
    let reports = [report(11, 4, StopReason::NodeLimit)];
    let join = rows(&drive(&opt, two_patterns(), &[Strategy::GenericJoin], &reports, &quick));
    assert_eq!(join.len(), 4);
    assert!(join.iter().all(|r| r.algo == "GenericJoin"));
    let exhaustive = rows(&drive(&opt, two_patterns(), &[Strategy::EMatch], &reports, &quick));
    assert_eq!(exhaustive.len(), 2);
    assert!(exhaustive.iter().all(|r| r.algo == "EMatch" && r.repeat_time == 0));
}

#[test]
fn a_benchmark_without_patterns_is_grown_but_never_searched() {
    let opt = options(vec![10, 20], DEFAULT_TIMEOUT_MICROS);
    let bench = Bench { bench_pats: vec![], ..two_patterns() };
    let reports = [report(11, 4, StopReason::NodeLimit), report(12, 4, StopReason::NodeLimit)];
    let log = drive(&opt, bench, &both(), &reports, &quick);
    assert_eq!(
        log,
        vec![
            Action::Grow { tier: 0, node_limit: 10, iter_limit: 1000, time_limit_secs: 4000 },
            Action::Grow { tier: 1, node_limit: 20, iter_limit: 1000, time_limit_secs: 4000 },
            Action::Finish,
        ]
    );
}

#[test]
fn without_strategies_nothing_is_searched() {
    let opt = options(vec![10], DEFAULT_TIMEOUT_MICROS);
    let reports = [report(11, 4, StopReason::Saturated)];
    let log = drive(&opt, two_patterns(), &[], &reports, &quick);
    assert_eq!(log.len(), 2);
    assert_eq!(log[1], Action::Finish);
}

#[test]
fn a_timeout_is_recorded_and_the_run_goes_on() {
    let opt = options(vec![10], 3_000_000);
    let reports = [report(11, 4, StopReason::NodeLimit)];
    let slow_join = |_tier: usize, pattern: usize, strategy: Strategy| {
        if strategy == Strategy::GenericJoin && pattern == 0 {
            SearchOutcome::TimedOut
        } else {
            SearchOutcome::Finished { elapsed_micros: 5, bindings: vec![2] }
        }
    };
    let recorded = rows(&drive(&opt, two_patterns(), &both(), &reports, &slow_join));
    let fields: Vec<(&str, usize)> =
        recorded.iter().map(|r| (r.time.as_str(), r.result_size)).collect();
    assert_eq!(
        fields,
        vec![("-3000000", 0), ("-3000000", 0), ("5", 2), ("5", 2), ("5", 2), ("5", 2)]
    );
}

#[test]
fn a_zero_timeout_forces_the_sentinel_and_zero_bindings_into_every_row() {
    let opt = options(vec![10, 20], 0);
    let reports = [report(11, 4, StopReason::NodeLimit), report(12, 4, StopReason::Saturated)];
    let recorded = rows(&drive(&opt, two_patterns(), &both(), &reports, &quick));
    assert_eq!(recorded.len(), 12);
    for row in recorded.iter() {
        assert!(row.time.starts_with('-'));
        assert_eq!(row.time, "-0");
        assert_eq!(row.result_size, 0);
    }
}

#[test]
fn every_recorded_elapsed_field_is_a_numeral_or_the_sentinel() {
    let timeout = 2_000_000u128;
    let opt = options(vec![10, 20], timeout);
    let reports = [report(11, 4, StopReason::NodeLimit), report(12, 4, StopReason::NodeLimit)];
    let mixed = |tier: usize, pattern: usize, _strategy: Strategy| {
        if (tier + pattern) % 2 == 0 {
            SearchOutcome::TimedOut
        } else {
            SearchOutcome::Finished { elapsed_micros: 1_999_999, bindings: vec![] }
        }
    };
    let recorded = rows(&drive(&opt, two_patterns(), &both(), &reports, &mixed));
    assert_eq!(recorded.len(), 12);
    for row in recorded.iter() {
        assert!(!row.time.is_empty());
        let numeral = row.time.parse::<u128>().is_ok() && !row.time.starts_with('+');
        let sentinel = row.time == "-2000000";
        assert!(numeral || sentinel, "{}", row.time);
        assert_eq!(sentinel, row.result_size == 0 && row.time.starts_with('-'));
    }
}

#[test]
fn rows_carry_the_node_counts_of_their_tier_in_order() {
    let opt = options(vec![10, 20, 30], DEFAULT_TIMEOUT_MICROS);
    let reports = [
        report(11, 4, StopReason::NodeLimit),
        report(21, 9, StopReason::NodeLimit),
        report(31, 12, StopReason::NodeLimit),
    ];
    let recorded = rows(&drive(&opt, two_patterns(), &both(), &reports, &quick));
    let nodes: Vec<usize> = recorded.iter().map(|r| r.node_size).collect();
    let mut sorted = nodes.clone();
    sorted.sort();
    assert_eq!(nodes, sorted);
    assert_eq!(nodes.first(), Some(&11));
    assert_eq!(nodes.last(), Some(&31));
}

#[test]
fn the_aggregate_is_the_sum_of_the_bindings_of_each_match() {
    let opt = options(vec![10], DEFAULT_TIMEOUT_MICROS);
    let reports = [report(11, 4, StopReason::Saturated)];
    let many = |_tier: usize, pattern: usize, _strategy: Strategy| SearchOutcome::Finished {
        elapsed_micros: 8,
        bindings: if pattern == 0 { vec![5, 0, 7, 1] } else { vec![] },
    };
    let recorded = rows(&drive(&opt, two_patterns(), &[Strategy::EMatch], &reports, &many));
    assert_eq!(recorded[0].result_size, 13);
    assert_eq!(recorded[1].result_size, 0);
}

#[test]
fn a_run_ends_within_the_steps_its_tiers_and_trials_allow() {
    let opt = options(vec![10, 20, 30], DEFAULT_TIMEOUT_MICROS);
    let reports = [
        report(11, 4, StopReason::NodeLimit),
        report(21, 9, StopReason::NodeLimit),
        report(31, 12, StopReason::NodeLimit),
    ];
    let log = drive(&opt, two_patterns(), &both(), &reports, &quick);
    // One growth phase and, for each of the six trials, a search and a row,
    // for each of the three tiers; then the end.
    assert_eq!(log.len(), 3 * (1 + 2 * 6) + 1);
    let early = [report(11, 4, StopReason::Saturated)];
    let log = drive(&opt, two_patterns(), &both(), &early, &quick);
    assert_eq!(log.len(), (1 + 2 * 6) + 1);
}
