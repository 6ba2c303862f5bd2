//! The run of one benchmark: growth phase after growth phase, and after each
//! the searches of every probe pattern. The run is a state machine. It says
//! what to do next; whoever drives it does that and reports back.

use vstd::prelude::*;
use crate::bench::{texts, Bench};
use crate::options::{Opt, ITER_LIMIT, TIME_LIMIT_SECS};
use crate::plan::{lemma_trial_plan_bounds, plan_trials, trial_plan, Trial};
use crate::record::{BenchRecord, Outcome, Row, SearchOutcome};
use crate::strategy::Strategy;

verus! {

/// Why a growth phase stopped. Only `Saturated` is a fixed point; the three
/// limits are ordinary ways for a phase to end.
#[derive(Clone, Copy, Debug, PartialEq, Eq, Structural)]
pub enum StopReason {
    /// No rule adds anything any more.
    Saturated,
    /// The corpus outgrew the node ceiling.
    NodeLimit,
    /// The iteration ceiling was reached.
    IterationLimit,
    /// The wall-clock ceiling was reached.
    TimeLimit,
}

/// What a growth phase reports: the size of the corpus it left, and why it
/// stopped.
#[derive(Clone, Copy, Debug, PartialEq, Eq, Structural)]
pub struct GrowthReport {
    pub nodes: usize,
    pub classes: usize,
    pub stop: StopReason,
}

/// What the run waits for.
#[derive(Clone, Copy, Debug, PartialEq, Eq, Structural)]
pub enum Phase {
    /// The report of the growth phase of the current tier.
    Growing,
    /// The outcome of the current trial's search.
    Searching,
    /// Word that the current trial's row has been written and flushed.
    Recording,
    /// Nothing: the run is over.
    Finished,
}

/// What happened outside, reported to the run.
#[derive(Clone, Debug, PartialEq, Eq)]
pub enum Event {
    /// The growth phase that was asked for has stopped.
    Grown(GrowthReport),
    /// The wait for the search that was asked for has ended.
    Searched(SearchOutcome),
    /// The row that was handed out is written and flushed.
    Recorded,
}

/// An event as plain mathematical data.
pub enum Signal {
    Grown(GrowthReport),
    Searched(Outcome),
    Recorded,
}

impl View for Event {
    type V = Signal;

    open spec fn view(&self) -> Signal {
        match self {
            Event::Grown(report) => Signal::Grown(*report),
            Event::Searched(outcome) => Signal::Searched(outcome@),
            Event::Recorded => Signal::Recorded,
        }
    }
}

/// What the run asks to be done next.
#[derive(Clone, Debug, PartialEq, Eq)]
pub enum Action {
    /// Grow the corpus under the given ceilings: from the seed expressions on
    /// tier 0, from the corpus of the tier before on every later tier.
    Grow { tier: usize, node_limit: usize, iter_limit: usize, time_limit_secs: u64 },
    /// Search a private copy of the grown corpus for one probe pattern under
    /// one strategy, and wait for the result no longer than the deadline.
    Search { tier: usize, pattern: usize, strategy: Strategy, timeout_micros: u128 },
    /// Append this row to the sink and flush.
    Record(BenchRecord),
    /// Nothing is left to do.
    Finish,
}

/// An action as plain mathematical data.
pub enum Directive {
    Grow { tier: usize, node_limit: usize, iter_limit: usize, time_limit_secs: u64 },
    Search { tier: usize, pattern: usize, strategy: Strategy, timeout_micros: u128 },
    Record(Row),
    Finish,
}

impl View for Action {
    type V = Directive;

    open spec fn view(&self) -> Directive {
        match self {
            Action::Grow { tier, node_limit, iter_limit, time_limit_secs } => Directive::Grow {
                tier: *tier,
                node_limit: *node_limit,
                iter_limit: *iter_limit,
                time_limit_secs: *time_limit_secs,
            },
            Action::Search { tier, pattern, strategy, timeout_micros } => Directive::Search {
                tier: *tier,
                pattern: *pattern,
                strategy: *strategy,
                timeout_micros: *timeout_micros,
            },
            Action::Record(record) => Directive::Record(record@),
            Action::Finish => Directive::Finish,
        }
    }
}

/// The state of a run as plain mathematical data.
pub struct RunState {
    /// Name of the benchmark.
    pub name: Seq<char>,
    /// Texts of the probe patterns.
    pub patterns: Seq<Seq<char>>,
    /// Node ceilings of the tiers, in the order in which they are grown.
    pub tiers: Seq<usize>,
    /// The trials that follow each growth phase.
    pub plan: Seq<Trial>,
    /// Deadline of each search.
    pub timeout_micros: u128,
    /// Index of the tier the run is at.
    pub tier: usize,
    /// Index in `plan` of the trial the run is at.
    pub slot: usize,
    /// What the run waits for.
    pub phase: Phase,
    /// Nodes in the corpus, as last reported.
    pub nodes: usize,
    /// Equivalence classes in the corpus, as last reported.
    pub classes: usize,
    /// Whether the last growth phase reached a fixed point.
    pub saturated: bool,
}

impl RunState {
    /// The state a run starts in.
    pub open spec fn initial(
        name: Seq<char>,
        patterns: Seq<Seq<char>>,
        tiers: Seq<usize>,
        strategies: Seq<Strategy>,
        timeout_micros: u128,
    ) -> RunState {
        RunState {
            name,
            patterns,
            tiers,
            plan: trial_plan(patterns.len(), strategies),
            timeout_micros,
            tier: 0,
            slot: 0,
            phase: if tiers.len() > 0 {
                Phase::Growing
            } else {
                Phase::Finished
            },
            nodes: 0,
            classes: 0,
            saturated: false,
        }
    }

    /// Whether the state is one a run can be in.
    pub open spec fn wf(self) -> bool {
        &&& self.tiers.len() <= usize::MAX
        &&& self.plan.len() <= usize::MAX
        &&& forall|k: int|
            0 <= k < self.plan.len() ==> (#[trigger] self.plan[k]).pattern < self.patterns.len()
        &&& match self.phase {
            Phase::Growing => self.tier < self.tiers.len() && !self.saturated,
            Phase::Searching | Phase::Recording => self.tier < self.tiers.len() && self.slot
                < self.plan.len(),
            Phase::Finished => true,
        }
    }

    /// Whether `signal` is what the run waits for. The outcome of a search
    /// must besides be one whose row can be written down.
    pub open spec fn accepts(self, signal: Signal) -> bool {
        match signal {
            Signal::Grown(_) => self.phase is Growing,
            Signal::Searched(outcome) => self.phase is Searching && outcome.fits(),
            Signal::Recorded => self.phase is Recording,
        }
    }

    /// The row recorded for the current trial when its search ends in
    /// `outcome`.
    pub open spec fn row(self, outcome: Outcome) -> Row {
        let trial = self.plan[self.slot as int];
        Row {
            benchmark: self.name,
            node_size: self.nodes,
            class_size: self.classes,
            algo: trial.strategy.spec_tag(),
            pattern: self.patterns[trial.pattern as int],
            time: outcome.time_field(self.timeout_micros),
            result_size: outcome.result_size(self.timeout_micros) as usize,
            repeat_time: trial.repeat,
        }
    }

    /// What a run asks for on entering this state, for a state that waits for
    /// growth or for a search, or for nothing.
    pub open spec fn request(self) -> Directive {
        match self.phase {
            Phase::Growing => Directive::Grow {
                tier: self.tier,
                node_limit: self.tiers[self.tier as int],
                iter_limit: ITER_LIMIT,
                time_limit_secs: TIME_LIMIT_SECS,
            },
            Phase::Searching => Directive::Search {
                tier: self.tier,
                pattern: self.plan[self.slot as int].pattern,
                strategy: self.plan[self.slot as int].strategy,
                timeout_micros: self.timeout_micros,
            },
            _ => Directive::Finish,
        }
    }

    /// Where the run goes when the trials of a tier are through: to the
    /// growth phase of the next tier, unless the corpus is saturated or no
    /// tier is left.
    pub open spec fn leave_tier(self) -> RunState {
        if self.saturated || self.tier + 1 >= self.tiers.len() {
            RunState { phase: Phase::Finished, ..self }
        } else {
            RunState { tier: (self.tier + 1) as usize, slot: 0, phase: Phase::Growing, ..self }
        }
    }

    /// The state that follows when `signal` arrives.
    pub open spec fn next(self, signal: Signal) -> RunState {
        match signal {
            Signal::Grown(report) => {
                let grown = RunState {
                    nodes: report.nodes,
                    classes: report.classes,
                    saturated: report.stop is Saturated,
                    slot: 0,
                    ..self
                };
                if grown.plan.len() > 0 {
                    RunState { phase: Phase::Searching, ..grown }
                } else {
                    grown.leave_tier()
                }
            },
            Signal::Searched(_) => RunState { phase: Phase::Recording, ..self },
            Signal::Recorded => {
                if self.slot + 1 < self.plan.len() {
                    RunState { slot: (self.slot + 1) as usize, phase: Phase::Searching, ..self }
                } else {
                    self.leave_tier()
                }
            },
        }
    }

    /// What the run asks for when `signal` arrives: after a search, that the
    /// row of the trial be recorded; otherwise, what the following state
    /// requests.
    pub open spec fn reply(self, signal: Signal) -> Directive {
        match signal {
            Signal::Searched(outcome) => Directive::Record(self.row(outcome)),
            _ => self.next(signal).request(),
        }
    }
}

/// A signal that the run waits for leads from one possible state to another.
pub proof fn lemma_next_wf(state: RunState, signal: Signal)
    requires
        state.wf(),
        state.accepts(signal),
    ensures
        state.next(signal).wf(),
{
}

/// The run of one benchmark.
pub struct BenchRun {
    name: String,
    patterns: Vec<String>,
    tiers: Vec<usize>,
    plan: Vec<Trial>,
    timeout_micros: u128,
    tier: usize,
    slot: usize,
    phase: Phase,
    nodes: usize,
    classes: usize,
    saturated: bool,
}

impl View for BenchRun {
    type V = RunState;

    closed spec fn view(&self) -> RunState {
        RunState {
            name: self.name@,
            patterns: texts(self.patterns@),
            tiers: self.tiers@,
            plan: self.plan@,
            timeout_micros: self.timeout_micros,
            tier: self.tier,
            slot: self.slot,
            phase: self.phase,
            nodes: self.nodes,
            classes: self.classes,
            saturated: self.saturated,
        }
    }
}

impl BenchRun {
    #[verifier::type_invariant]
    spec fn inv(self) -> bool {
        self@.wf()
    }

    /// What the run waits for.
    pub fn phase(&self) -> (phase: Phase)
        ensures
            phase == self@.phase,
    {
        self.phase
    }

    /// Whether `event` is what the run waits for, and its row, if it leads to
    /// one, can be written down.
    pub fn accepts(&self, event: &Event) -> (ok: bool)
        ensures
            ok == self@.accepts(event@),
    {
        match event {
            Event::Grown(_) => matches!(self.phase, Phase::Growing),
            Event::Searched(outcome) => matches!(self.phase, Phase::Searching) && outcome.fits(),
            Event::Recorded => matches!(self.phase, Phase::Recording),
        }
    }

    /// The action that a state waiting for growth, for a search or for
    /// nothing asks for.
    fn request(&self) -> (action: Action)
        requires
            !(self@.phase is Recording),
        ensures
            action@ == self@.request(),
    {
        proof {
            use_type_invariant(self);
        }
        match self.phase {
            Phase::Growing => Action::Grow {
                tier: self.tier,
                node_limit: self.tiers[self.tier],
                iter_limit: ITER_LIMIT,
                time_limit_secs: TIME_LIMIT_SECS,
            },
            Phase::Searching => Action::Search {
                tier: self.tier,
                pattern: self.plan[self.slot].pattern,
                strategy: self.plan[self.slot].strategy,
                timeout_micros: self.timeout_micros,
            },
            _ => Action::Finish,
        }
    }

    /// The run after the trials of the current tier.
    fn leave_tier(self) -> (next: BenchRun)
        requires
            self@.phase is Finished || self@.tier < self@.tiers.len(),
        ensures
            next@ == self@.leave_tier(),
    {
        proof {
            use_type_invariant(&self);
        }
        if self.saturated || self.tier >= self.tiers.len() || self.tier + 1 >= self.tiers.len() {
            BenchRun { phase: Phase::Finished, ..self }
        } else {
            BenchRun { tier: self.tier + 1, slot: 0, phase: Phase::Growing, ..self }
        }
    }

    /// Takes in what happened outside and says what to do next.
    pub fn step(self, event: Event) -> (next: (BenchRun, Action))
        requires
            self@.accepts(event@),
        ensures
            next.0@ == self@.next(event@),
            next.1@ == self@.reply(event@),
            next.0@.wf(),
    {
        proof {
            use_type_invariant(&self);
        }
        match event {
            Event::Grown(report) => {
                let saturated = matches!(report.stop, StopReason::Saturated);
                let next = if self.plan.len() > 0 {
                    BenchRun {
                        nodes: report.nodes,
                        classes: report.classes,
                        saturated,
                        slot: 0,
                        phase: Phase::Searching,
                        ..self
                    }
                } else if saturated || self.tier + 1 >= self.tiers.len() {
                    BenchRun {
                        nodes: report.nodes,
                        classes: report.classes,
                        saturated,
                        slot: 0,
                        phase: Phase::Finished,
                        ..self
                    }
                } else {
                    BenchRun {
                        nodes: report.nodes,
                        classes: report.classes,
                        saturated,
                        tier: self.tier + 1,
                        slot: 0,
                        phase: Phase::Growing,
                        ..self
                    }
                };
                let action = next.request();
                (next, action)
            },
            Event::Searched(outcome) => {
                let trial = self.plan[self.slot];
                let (time, result_size) = outcome.measurement(self.timeout_micros);
                let record = BenchRecord {
                    benchmark: self.name.clone(),
                    node_size: self.nodes,
                    class_size: self.classes,
                    algo: trial.strategy.tag(),
                    pattern: self.patterns[trial.pattern].clone(),
                    time,
                    result_size,
                    repeat_time: trial.repeat,
                };
                let next = BenchRun { phase: Phase::Recording, ..self };
                (next, Action::Record(record))
            },
            Event::Recorded => {
                let next = if self.slot + 1 < self.plan.len() {
                    BenchRun { slot: self.slot + 1, phase: Phase::Searching, ..self }
                } else {
                    self.leave_tier()
                };
                let action = next.request();
                (next, action)
            },
        }
    }
}

/// Starts the run of one benchmark: over the tiers of `opt`, with the
/// deadline of `opt`, searching the probe patterns of `bench` under each of
/// `strategies`. Hands back the run and the first thing to do.
pub fn run_bench(opt: &Opt, bench: Bench, strategies: &[Strategy]) -> (start: (BenchRun, Action))
    ensures
        start.0@ == RunState::initial(
            bench.name@,
            texts(bench.bench_pats@),
            opt.sizes@,
            strategies@,
            opt.timeout_micros,
        ),
        start.1@ == start.0@.request(),
        start.0@.wf(),
{
    let tiers = opt.sizes.clone();
    let plan = plan_trials(bench.bench_pats.len(), strategies);
    proof {
        lemma_trial_plan_bounds(bench.bench_pats@.len(), strategies@);
    }
    let phase = if tiers.len() > 0 {
        Phase::Growing
    } else {
        Phase::Finished
    };
    assert(plan@.len() <= usize::MAX) by {
        vstd::std_specs::vec::axiom_spec_len(&plan);
    }
    let run = BenchRun {
        name: bench.name,
        patterns: bench.bench_pats,
        tiers,
        plan,
        timeout_micros: opt.timeout_micros,
        tier: 0,
        slot: 0,
        phase,
        nodes: 0,
        classes: 0,
        saturated: false,
    };
    let action = run.request();
    (run, action)
}

} // verus!
