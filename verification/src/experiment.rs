//! The experiment as a whole: the list of benchmark names, gone through once
//! for each sample, each name looked up when its turn comes.

use vstd::prelude::*;
use crate::bench::{find_benchmark, registered, texts, Benchmark};
use crate::error::ConfigError;
use crate::options::Opt;

verus! {

/// What an experiment does next.
#[derive(Clone, Debug, PartialEq, Eq)]
pub enum Turn {
    /// Run this benchmark.
    Run(Benchmark),
    /// Stop: the name whose turn it is stands for no benchmark.
    Abort(ConfigError),
    /// Nothing is left to run.
    Done,
}

/// A turn as plain mathematical data.
pub enum Outlook {
    Run(Benchmark),
    Unknown(Seq<char>),
    Done,
}

impl View for Turn {
    type V = Outlook;

    open spec fn view(&self) -> Outlook {
        match self {
            Turn::Run(benchmark) => Outlook::Run(*benchmark),
            Turn::Abort(fault) => Outlook::Unknown(fault.subject()),
            Turn::Done => Outlook::Done,
        }
    }
}

/// Where an experiment stands, as plain mathematical data.
pub struct Schedule {
    /// The benchmark names, in the order in which they are run.
    pub names: Seq<Seq<char>>,
    /// How often the list of names is gone through.
    pub samples: usize,
    /// How often it has been gone through already.
    pub sample: usize,
    /// Index in `names` of the name whose turn it is.
    pub index: usize,
}

impl Schedule {
    /// Where an experiment starts.
    pub open spec fn initial(names: Seq<Seq<char>>, samples: usize) -> Schedule {
        Schedule { names, samples, sample: 0, index: 0 }
    }

    /// Whether the schedule is one an experiment can stand at.
    pub open spec fn wf(self) -> bool {
        &&& self.names.len() <= usize::MAX
        &&& self.sample <= self.samples
        &&& self.index <= self.names.len()
        &&& self.names.len() > 0 ==> self.index < self.names.len()
    }

    /// Whether every name has had all its turns.
    pub open spec fn over(self) -> bool {
        self.sample >= self.samples || self.names.len() == 0
    }

    /// What the experiment does next: nothing when it is over; otherwise it
    /// runs the benchmark registered under the name whose turn it is, and
    /// stops where none is.
    pub open spec fn upcoming(self) -> Outlook {
        if self.over() {
            Outlook::Done
        } else {
            match registered(self.names[self.index as int]) {
                Some(benchmark) => Outlook::Run(benchmark),
                None => Outlook::Unknown(self.names[self.index as int]),
            }
        }
    }

    /// Where the experiment stands after its next turn. It moves on only past
    /// a name that it ran: a name that stands for no benchmark keeps its
    /// turn for good.
    pub open spec fn advance(self) -> Schedule {
        if self.upcoming() is Run {
            if self.index + 1 < self.names.len() {
                Schedule { index: (self.index + 1) as usize, ..self }
            } else {
                Schedule { sample: (self.sample + 1) as usize, index: 0, ..self }
            }
        } else {
            self
        }
    }

    /// Where the experiment stands after `turns` turns.
    pub open spec fn after(self, turns: nat) -> Schedule
        decreases turns,
    {
        if turns == 0 {
            self
        } else {
            self.after((turns - 1) as nat).advance()
        }
    }
}

/// An experiment under way.
pub struct Experiment {
    names: Vec<String>,
    samples: usize,
    sample: usize,
    index: usize,
}

impl View for Experiment {
    type V = Schedule;

    closed spec fn view(&self) -> Schedule {
        Schedule {
            names: texts(self.names@),
            samples: self.samples,
            sample: self.sample,
            index: self.index,
        }
    }
}

impl Experiment {
    #[verifier::type_invariant]
    spec fn inv(self) -> bool {
        self@.wf()
    }

    /// The experiment that `opt` asks for: its benchmarks, in order, once for
    /// each sample.
    pub fn new(opt: &Opt) -> (experiment: Experiment)
        ensures
            experiment@ == Schedule::initial(texts(opt.benchmarks@), opt.samples),
            experiment@.wf(),
    {
        let names = opt.benchmarks.clone();
        assert(names@.len() <= usize::MAX) by {
            vstd::std_specs::vec::axiom_spec_len(&names);
        }
        Experiment { names, samples: opt.samples, sample: 0, index: 0 }
    }

    /// Takes the next turn: looks up the name whose turn it is and says what
    /// to do.
    pub fn turn(self) -> (next: (Experiment, Turn))
        ensures
            next.0@ == self@.advance(),
            next.1@ == self@.upcoming(),
            next.1 matches Turn::Abort(fault) ==> fault is UnknownBenchmark,
            next.0@.wf(),
    {
        proof {
            use_type_invariant(&self);
        }
        if self.sample >= self.samples || self.names.len() == 0 {
            return (self, Turn::Done);
        }
        match find_benchmark(self.names[self.index].as_str()) {
            Some(benchmark) => {
                let next = if self.index + 1 < self.names.len() {
                    Experiment { index: self.index + 1, ..self }
                } else {
                    Experiment { sample: self.sample + 1, index: 0, ..self }
                };
                (next, Turn::Run(benchmark))
            },
            None => {
                let name = self.names[self.index].clone();
                (self, Turn::Abort(ConfigError::UnknownBenchmark(name)))
            },
        }
    }
}

/// Whether every one of `names` stands for a benchmark.
pub open spec fn all_registered(names: Seq<Seq<char>>) -> bool {
    forall|i: int| 0 <= i < names.len() ==> registered(#[trigger] names[i]) is Some
}

/// Every state that turns lead to is one an experiment can stand at.
pub proof fn lemma_after_wf(start: Schedule, turns: nat)
    requires
        start.wf(),
    ensures
        start.after(turns).wf(),
        start.after(turns).names == start.names,
        start.after(turns).samples == start.samples,
    decreases turns,
{
    if turns > 0 {
        lemma_after_wf(start, (turns - 1) as nat);
    }
}

/// While the names stand for benchmarks they are run in the order of the
/// list: in the first sample, the turn of index `k` runs the benchmark
/// registered under the name of index `k`.
pub proof fn lemma_first_sample(names: Seq<Seq<char>>, samples: usize, k: nat)
    requires
        samples >= 1,
        k < names.len() <= usize::MAX,
        forall|i: int| 0 <= i < k ==> registered(#[trigger] names[i]) is Some,
    ensures
        Schedule::initial(names, samples).after(k) == (Schedule {
            names,
            samples,
            sample: 0,
            index: k as usize,
        }),
    decreases k,
{
    if k > 0 {
        lemma_first_sample(names, samples, (k - 1) as nat);
    }
}

/// A name that stands for no benchmark stops the experiment where its turn
/// comes. The names before it have been run, each in its turn; the unknown
/// name is never run, nor is anything after it: every later turn finds the
/// same fault again.
pub proof fn lemma_unknown_name_aborts(names: Seq<Seq<char>>, samples: usize, u: nat, turns: nat)
    requires
        samples >= 1,
        u < names.len() <= usize::MAX,
        forall|i: int| 0 <= i < u ==> registered(#[trigger] names[i]) is Some,
        registered(names[u as int]) is None,
    ensures
        turns < u ==> Schedule::initial(names, samples).after(turns).upcoming() == Outlook::Run(
            registered(names[turns as int])->0,
        ),
        turns >= u ==> Schedule::initial(names, samples).after(turns) == Schedule::initial(
            names,
            samples,
        ).after(u),
        turns >= u ==> Schedule::initial(names, samples).after(turns).upcoming()
            == Outlook::Unknown(names[u as int]),
    decreases turns,
{
    if turns < u {
        lemma_first_sample(names, samples, turns);
    } else {
        lemma_first_sample(names, samples, u);
        if turns > u {
            lemma_unknown_name_aborts(names, samples, u, (turns - 1) as nat);
        }
    }
}

/// Where every name stands for a benchmark, the list is gone through once
/// for each sample, in order: after `sample` full passes and `index` more
/// turns the experiment stands at that sample and that index.
pub proof fn lemma_position(names: Seq<Seq<char>>, samples: usize, sample: nat, index: nat)
    requires
        all_registered(names),
        0 < names.len() <= usize::MAX,
        sample < samples,
        index < names.len(),
    ensures
        Schedule::initial(names, samples).after(sample * names.len() + index) == (Schedule {
            names,
            samples,
            sample: sample as usize,
            index: index as usize,
        }),
        Schedule::initial(names, samples).after(sample * names.len() + index).upcoming()
            == Outlook::Run(registered(names[index as int])->0),
    decreases sample, index,
{
    let len = names.len();
    if index > 0 {
        lemma_position(names, samples, sample, (index - 1) as nat);
    } else if sample > 0 {
        lemma_position(names, samples, (sample - 1) as nat, (len - 1) as nat);
        assert((sample - 1) * len + (len - 1) == sample * len - 1) by (nonlinear_arith);
    } else {
        assert(sample * len + index == 0) by (nonlinear_arith)
            requires
                sample == 0,
                index == 0,
        ;
    }
}

/// Where every name stands for a benchmark, the experiment is over after as
/// many turns as there are samples times names.
pub proof fn lemma_done(names: Seq<Seq<char>>, samples: usize)
    requires
        all_registered(names),
        names.len() <= usize::MAX,
    ensures
        Schedule::initial(names, samples).after((samples * names.len()) as nat).upcoming() is Done,
{
    let len = names.len();
    if len > 0 && samples > 0 {
        lemma_position(names, samples, (samples - 1) as nat, (len - 1) as nat);
        assert((samples - 1) * len + (len - 1) == samples * len - 1) by (nonlinear_arith);
    } else {
        assert(samples * len == 0) by (nonlinear_arith)
            requires
                samples == 0 || len == 0,
        ;
    }
}

} // verus!
