use ematch_bench::bench::Benchmark;
use ematch_bench::error::ConfigError;
use ematch_bench::experiment::{Experiment, Turn};
use ematch_bench::options::Opt;

fn experiment(names: &[&str], samples: usize) -> Experiment {
    Experiment::new(&Opt {
        benchmarks: names.iter().map(|n| n.to_string()).collect(),
        sizes: vec![10_000],
        filename: String::new(),
        strategy: "all".to_string(),
        samples,
        timeout_micros: 60_000_000,
        verbose: false,
    })
}

fn turns(mut experiment: Experiment, limit: usize) -> Vec<Turn> {
    let mut seen = Vec::new();
    for _ in 0..limit {
        let (next, turn) = experiment.turn();
        experiment = next;
        seen.push(turn);
    }
    seen
}

#[test]
fn names_are_run_in_order_once_for_each_sample() {
    let seen = turns(experiment(&["math", "math"], 3), 8);
    let mut expected = vec![Turn::Run(Benchmark::Math); 6];
    expected.push(Turn::Done);
    expected.push(Turn::Done);
    assert_eq!(seen, expected);
}

#[test]
fn no_sample_means_nothing_to_run() {
    assert_eq!(turns(experiment(&["math"], 0), 2), vec![Turn::Done, Turn::Done]);
    assert_eq!(turns(experiment(&["nonesuch"], 0), 1), vec![Turn::Done]);
}

#[test]
fn no_name_means_nothing_to_run() {
    assert_eq!(turns(experiment(&[], 4), 2), vec![Turn::Done, Turn::Done]);
}

#[test]
fn an_unknown_name_aborts_when_its_turn_comes() {
    let seen = turns(experiment(&["math", "lattice", "math"], 2), 4);
    let fault = Turn::Abort(ConfigError::UnknownBenchmark("lattice".to_string()));
    assert_eq!(
        seen,
        vec![Turn::Run(Benchmark::Math), fault.clone(), fault.clone(), fault]
    );
}

#[test]
fn an_unknown_first_name_aborts_before_anything_is_run() {
    let seen = turns(experiment(&["Math", "math"], 1), 2);
    let fault = Turn::Abort(ConfigError::UnknownBenchmark("Math".to_string()));
    assert_eq!(seen, vec![fault.clone(), fault]);
}
