//! What one search yields, and the row that is recorded for it.

use vstd::prelude::*;
use vstd::string::StringExecFns;
use crate::text::{decimal, decimal_string, is_numeral, lemma_decimal_round_trip, push_decimal};

verus! {

/// One recorded measurement: a search of one pattern under one strategy
/// against a corpus of the stated size.
#[derive(Clone, Debug, PartialEq, Eq)]
pub struct BenchRecord {
    /// Name of the benchmark.
    pub benchmark: String,
    /// Nodes in the corpus that was searched.
    pub node_size: usize,
    /// Equivalence classes in the corpus that was searched.
    pub class_size: usize,
    /// Tag of the strategy the search ran under.
    pub algo: String,
    /// Text of the probe pattern.
    pub pattern: String,
    /// Elapsed microseconds, or the timeout sentinel.
    pub time: String,
    /// Variable bindings found, over all matches.
    pub result_size: usize,
    /// Which repeat of the trial this is, counted from zero.
    pub repeat_time: usize,
}

/// A recorded measurement as plain mathematical data.
pub struct Row {
    pub benchmark: Seq<char>,
    pub node_size: usize,
    pub class_size: usize,
    pub algo: Seq<char>,
    pub pattern: Seq<char>,
    pub time: Seq<char>,
    pub result_size: usize,
    pub repeat_time: usize,
}

impl View for BenchRecord {
    type V = Row;

    open spec fn view(&self) -> Row {
        Row {
            benchmark: self.benchmark@,
            node_size: self.node_size,
            class_size: self.class_size,
            algo: self.algo@,
            pattern: self.pattern@,
            time: self.time@,
            result_size: self.result_size,
            repeat_time: self.repeat_time,
        }
    }
}

/// How the wait for one search ended.
#[derive(Clone, Debug, PartialEq, Eq)]
pub enum SearchOutcome {
    /// The search handed back its result before the deadline.
    Finished {
        /// Microseconds the search itself took.
        elapsed_micros: u128,
        /// For each match found, the number of variable bindings it admits.
        bindings: Vec<usize>,
    },
    /// The deadline elapsed first. The search is abandoned, not stopped, and
    /// whatever it may still produce is discarded.
    TimedOut,
}

/// A search outcome as plain mathematical data.
pub enum Outcome {
    Finished { elapsed_micros: u128, bindings: Seq<usize> },
    TimedOut,
}

impl View for SearchOutcome {
    type V = Outcome;

    open spec fn view(&self) -> Outcome {
        match self {
            SearchOutcome::Finished { elapsed_micros, bindings } => Outcome::Finished {
                elapsed_micros: *elapsed_micros,
                bindings: bindings@,
            },
            SearchOutcome::TimedOut => Outcome::TimedOut,
        }
    }
}

/// The sum of the given counts.
pub open spec fn total(counts: Seq<usize>) -> nat
    decreases counts.len(),
{
    if counts.len() == 0 {
        0
    } else {
        total(counts.drop_last()) + counts.last() as nat
    }
}

/// The sum over a prefix never exceeds the sum over the whole.
pub proof fn lemma_total_prefix(counts: Seq<usize>, n: int)
    requires
        0 <= n <= counts.len(),
    ensures
        total(counts.take(n)) <= total(counts),
    decreases counts.len(),
{
    if n == counts.len() {
        assert(counts.take(n) =~= counts);
    } else {
        assert(counts.drop_last().take(n) =~= counts.take(n));
        lemma_total_prefix(counts.drop_last(), n);
    }
}

/// Adds up the binding counts of the matches of one search. `None` when the
/// sum does not fit the machine word.
pub fn total_bindings(counts: &[usize]) -> (sum: Option<usize>)
    ensures
        match sum {
            Some(n) => n == total(counts@),
            None => total(counts@) > usize::MAX,
        },
{
    let mut acc: usize = 0;
    let mut i: usize = 0;
    while i < counts.len()
        invariant
            i <= counts.len(),
            acc == total(counts@.take(i as int)),
        decreases counts.len() - i,
    {
        proof {
            assert(counts@.take(i + 1).drop_last() =~= counts@.take(i as int));
        }
        match acc.checked_add(counts[i]) {
            Some(next) => {
                acc = next;
            },
            None => {
                proof {
                    lemma_total_prefix(counts@, i + 1);
                }
                return None;
            },
        }
        i += 1;
    }
    proof {
        assert(counts@.take(i as int) =~= counts@);
    }
    Some(acc)
}

impl Outcome {
    /// Whether the result counts as having arrived before a deadline of
    /// `timeout_micros`. A deadline of zero has elapsed before any result can
    /// arrive.
    pub open spec fn in_time(self, timeout_micros: u128) -> bool {
        self is Finished && timeout_micros > 0
    }

    /// Whether the row of this outcome can be written down: the bindings of a
    /// result that arrived in time add up to a machine word.
    pub open spec fn fits(self) -> bool {
        self matches Outcome::Finished { bindings, .. } ==> total(bindings) <= usize::MAX
    }

    /// The elapsed-time field: the microseconds that the search took, or, for
    /// a search that did not answer in time, the timeout in microseconds
    /// behind a minus sign.
    pub open spec fn time_field(self, timeout_micros: u128) -> Seq<char> {
        match self {
            Outcome::Finished { elapsed_micros, .. } if timeout_micros > 0 => decimal(
                elapsed_micros as nat,
            ),
            _ => seq!['-'] + decimal(timeout_micros as nat),
        }
    }

    /// The number of variable bindings to record: their sum over all matches
    /// for a result that arrived in time, zero otherwise.
    pub open spec fn result_size(self, timeout_micros: u128) -> nat {
        match self {
            Outcome::Finished { bindings, .. } if timeout_micros > 0 => total(bindings),
            _ => 0,
        }
    }
}

/// The text that marks a search that did not answer within `timeout_micros`.
pub fn timeout_sentinel(timeout_micros: u128) -> (text: String)
    ensures
        text@ == seq!['-'] + decimal(timeout_micros as nat),
{
    proof {
        reveal_strlit("-");
    }
    let mut text = String::from_str("-");
    push_decimal(&mut text, timeout_micros);
    text
}

impl SearchOutcome {
    /// Whether the bindings of the matches add up to a machine word.
    pub fn fits(&self) -> (ok: bool)
        ensures
            ok == self@.fits(),
    {
        match self {
            SearchOutcome::Finished { bindings, .. } => total_bindings(bindings.as_slice()).is_some(),
            SearchOutcome::TimedOut => true,
        }
    }

    /// The elapsed-time field and the binding count that are recorded for
    /// this outcome under a deadline of `timeout_micros`.
    pub fn measurement(&self, timeout_micros: u128) -> (m: (String, usize))
        requires
            self@.fits(),
        ensures
            m.0@ == self@.time_field(timeout_micros),
            m.1 == self@.result_size(timeout_micros),
    {
        match self {
            SearchOutcome::Finished { elapsed_micros, bindings } => {
                if timeout_micros > 0 {
                    match total_bindings(bindings.as_slice()) {
                        Some(n) => (decimal_string(*elapsed_micros), n),
                        None => unreached(),
                    }
                } else {
                    (timeout_sentinel(timeout_micros), 0)
                }
            },
            SearchOutcome::TimedOut => (timeout_sentinel(timeout_micros), 0),
        }
    }
}

/// Whether `text` has the form of an elapsed-time field under a deadline of
/// `timeout_micros`: a run of decimal digits, or the timeout sentinel.
pub open spec fn is_time_field(text: Seq<char>, timeout_micros: u128) -> bool {
    is_numeral(text) || text == seq!['-'] + decimal(timeout_micros as nat)
}

/// Whether `text` is a timeout sentinel: a minus sign and a decimal numeral.
pub open spec fn is_sentinel(text: Seq<char>) -> bool {
    text.len() > 1 && text[0] == '-' && is_numeral(text.skip(1))
}

/// The elapsed-time field of any outcome is well formed: never empty, and
/// either a non-negative decimal integer or the timeout sentinel. The two
/// forms cannot be confused, and the sentinel stands exactly for the
/// outcomes that did not arrive in time.
pub proof fn lemma_time_field_form(outcome: Outcome, timeout_micros: u128)
    ensures
        outcome.time_field(timeout_micros).len() > 0,
        is_time_field(outcome.time_field(timeout_micros), timeout_micros),
        is_sentinel(outcome.time_field(timeout_micros)) <==> !outcome.in_time(timeout_micros),
        is_numeral(outcome.time_field(timeout_micros)) <==> outcome.in_time(timeout_micros),
        !(is_numeral(outcome.time_field(timeout_micros)) && is_sentinel(
            outcome.time_field(timeout_micros),
        )),
{
    lemma_decimal_round_trip(timeout_micros as nat);
    if let Outcome::Finished { elapsed_micros, .. } = outcome {
        lemma_decimal_round_trip(elapsed_micros as nat);
    }
}

/// The bindings recorded for a result that arrived in time are the sum, over
/// its matches, of the bindings of each; no match means zero; and a search
/// that did not answer in time records zero.
pub proof fn lemma_result_size(outcome: Outcome, timeout_micros: u128)
    ensures
        outcome matches Outcome::Finished { bindings, .. } ==> (timeout_micros > 0
            ==> outcome.result_size(timeout_micros) == total(bindings)),
        outcome matches Outcome::Finished { bindings, .. } ==> (bindings.len() == 0
            ==> outcome.result_size(timeout_micros) == 0),
        !outcome.in_time(timeout_micros) ==> outcome.result_size(timeout_micros) == 0,
{
}

/// With a deadline of zero every outcome is recorded as a timeout: the
/// elapsed-time field is the sentinel `-0` and no binding is counted.
pub proof fn lemma_zero_timeout(outcome: Outcome)
    ensures
        outcome.time_field(0) == seq!['-', '0'],
        is_sentinel(outcome.time_field(0)),
        outcome.result_size(0) == 0,
{
}

} // verus!
