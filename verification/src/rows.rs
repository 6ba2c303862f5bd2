//! What a whole run records: the rows of every tier it goes through, in
//! order, as a function of what the growth phases and the searches yield.

use vstd::prelude::*;
use crate::plan::Trial;
use crate::record::{Outcome, Row};
use crate::run::{Directive, GrowthReport, RunState, Signal};
use crate::trace::{
    accepted, lemma_tier_trials, replies, state_after, state_at, trial_signals,
};

verus! {

/// The row of one trial: searched against the corpus that `report` tells of,
/// with `outcome` as the end of the wait.
pub open spec fn trial_row(
    config: RunState,
    report: GrowthReport,
    trial: Trial,
    outcome: Outcome,
) -> Row {
    Row {
        benchmark: config.name,
        node_size: report.nodes,
        class_size: report.classes,
        algo: trial.strategy.spec_tag(),
        pattern: config.patterns[trial.pattern as int],
        time: outcome.time_field(config.timeout_micros),
        result_size: outcome.result_size(config.timeout_micros) as usize,
        repeat_time: trial.repeat,
    }
}

/// The rows of one tier: one for each trial of the plan, in the plan's order.
pub open spec fn tier_rows(config: RunState, report: GrowthReport, outcomes: Seq<Outcome>) -> Seq<
    Row,
> {
    Seq::new(config.plan.len(), |k: int| trial_row(config, report, config.plan[k], outcomes[k]))
}

/// The rows of a run that goes through as many tiers as there are reports:
/// the rows of the first tier, then those of the second, and so on.
pub open spec fn run_rows(
    config: RunState,
    reports: Seq<GrowthReport>,
    outcomes: Seq<Seq<Outcome>>,
) -> Seq<Row>
    decreases reports.len(),
{
    if reports.len() == 0 {
        Seq::empty()
    } else {
        run_rows(config, reports.drop_last(), outcomes.drop_last()) + tier_rows(
            config,
            reports.last(),
            outcomes.last(),
        )
    }
}

/// The signals of one tier: the report of its growth phase, then the signals
/// of its trials.
pub open spec fn tier_signals(report: GrowthReport, outcomes: Seq<Outcome>) -> Seq<Signal> {
    seq![Signal::Grown(report)] + trial_signals(outcomes)
}

/// The signals of a run, tier after tier.
pub open spec fn run_signals(reports: Seq<GrowthReport>, outcomes: Seq<Seq<Outcome>>) -> Seq<
    Signal,
>
    decreases reports.len(),
{
    if reports.len() == 0 {
        Seq::empty()
    } else {
        run_signals(reports.drop_last(), outcomes.drop_last()) + tier_signals(
            reports.last(),
            outcomes.last(),
        )
    }
}

/// The rows among the given directives, in order.
pub open spec fn rows_of(directives: Seq<Directive>) -> Seq<Row>
    decreases directives.len(),
{
    if directives.len() == 0 {
        Seq::empty()
    } else {
        let before = rows_of(directives.drop_last());
        match directives.last() {
            Directive::Record(row) => before.push(row),
            _ => before,
        }
    }
}

/// Whether the outcomes are such as a tier of `config` can have: one for
/// each trial of the plan, each with a row that can be written down.
pub open spec fn fit_plan(config: RunState, outcomes: Seq<Outcome>) -> bool {
    &&& outcomes.len() == config.plan.len()
    &&& forall|k: int| 0 <= k < outcomes.len() ==> (#[trigger] outcomes[k]).fits()
}

/// Whether two states belong to the same run: the same benchmark, patterns,
/// tiers, plan and deadline.
pub open spec fn same_run(a: RunState, b: RunState) -> bool {
    &&& a.name == b.name
    &&& a.patterns == b.patterns
    &&& a.tiers == b.tiers
    &&& a.plan == b.plan
    &&& a.timeout_micros == b.timeout_micros
}

/// Taking in two sequences of signals one after the other is taking in
/// their concatenation.
pub proof fn lemma_state_after_concat(start: RunState, first: Seq<Signal>, second: Seq<Signal>)
    ensures
        state_after(start, first + second) == state_after(state_after(start, first), second),
    decreases second.len(),
{
    if second.len() > 0 {
        assert((first + second).drop_last() =~= first + second.drop_last());
        lemma_state_after_concat(start, first, second.drop_last());
    }
}

/// The state in which a signal of a concatenation arrives.
proof fn lemma_state_at_concat(start: RunState, first: Seq<Signal>, second: Seq<Signal>, i: int)
    requires
        0 <= i <= first.len() + second.len(),
    ensures
        state_at(start, first + second, i) == if i <= first.len() {
            state_at(start, first, i)
        } else {
            state_at(state_after(start, first), second, i - first.len())
        },
{
    if i <= first.len() {
        assert((first + second).take(i) =~= first.take(i));
    } else {
        assert((first + second).take(i) =~= first + second.take(i - first.len()));
        lemma_state_after_concat(start, first, second.take(i - first.len()));
    }
}

/// The replies to a concatenation are the replies to its first part, then
/// the replies to its second part from where the first part leads; and the
/// concatenation is accepted where both parts are.
pub proof fn lemma_replies_concat(start: RunState, first: Seq<Signal>, second: Seq<Signal>)
    ensures
        replies(start, first + second) == replies(start, first) + replies(
            state_after(start, first),
            second,
        ),
        accepted(start, first) && accepted(state_after(start, first), second) ==> accepted(
            start,
            first + second,
        ),
{
    let middle = state_after(start, first);
    let whole = first + second;
    assert forall|i: int| 0 <= i < whole.len() implies #[trigger] replies(start, whole)[i] == (
    replies(start, first) + replies(middle, second))[i] by {
        lemma_state_at_concat(start, first, second, i);
        if i == first.len() {
            assert(first.take(i) =~= first);
        }
    }
    if accepted(start, first) && accepted(middle, second) {
        assert forall|i: int| 0 <= i < whole.len() implies (#[trigger] state_at(
            start,
            whole,
            i,
        )).accepts(whole[i]) by {
            lemma_state_at_concat(start, first, second, i);
            if i == first.len() {
                assert(first.take(i) =~= first);
            }
        }
    }
}

/// The rows among two sequences of directives, one after the other.
pub proof fn lemma_rows_of_concat(first: Seq<Directive>, second: Seq<Directive>)
    ensures
        rows_of(first + second) == rows_of(first) + rows_of(second),
    decreases second.len(),
{
    if second.len() > 0 {
        assert((first + second).drop_last() =~= first + second.drop_last());
        lemma_rows_of_concat(first, second.drop_last());
    }
}

/// Where every second directive is a row and the others are none, the rows
/// among the directives are those rows.
proof fn lemma_rows_of_alternating(directives: Seq<Directive>, rows: Seq<Row>, k: int)
    requires
        directives.len() == 2 * rows.len(),
        forall|i: int|
            0 <= i < directives.len() ==> if i % 2 == 0 {
                #[trigger] directives[i] == Directive::Record(rows[i / 2])
            } else {
                !(directives[i] is Record)
            },
        0 <= k <= rows.len(),
    ensures
        rows_of(directives.take(2 * k)) == rows.take(k),
    decreases k,
{
    if k > 0 {
        let j = k - 1;
        lemma_rows_of_alternating(directives, rows, j);
        let upto = directives.take(2 * k);
        let inner = directives.take(2 * j + 1);
        assert(upto.drop_last() =~= inner);
        assert(inner.drop_last() =~= directives.take(2 * j));
        assert(rows_of(upto) == rows_of(inner));
    }
}

/// One tier, from its growth phase to its last row: the run takes the report
/// and the outcome of every trial, records the rows of the tier and no
/// others, and then stands at the growth phase of the next tier, or at its
/// end where the corpus is saturated or no tier is left.
pub proof fn lemma_tier(start: RunState, report: GrowthReport, outcomes: Seq<Outcome>)
    requires
        start.wf(),
        start.phase is Growing,
        fit_plan(start, outcomes),
    ensures
        accepted(start, tier_signals(report, outcomes)),
        rows_of(replies(start, tier_signals(report, outcomes))) == tier_rows(
            start,
            report,
            outcomes,
        ),
        ({
            let end = state_after(start, tier_signals(report, outcomes));
            &&& end.wf()
            &&& same_run(end, start)
            &&& if report.stop is Saturated || start.tier + 1 >= start.tiers.len() {
                end.phase is Finished
            } else {
                end.phase is Growing && end.tier == start.tier + 1
            }
        }),
{
    let first = seq![Signal::Grown(report)];
    let second = trial_signals(outcomes);
    let grown = start.next(Signal::Grown(report));
    let n = outcomes.len() as int;
    assert(accepted(start, first));
    assert(rows_of(replies(start, first)) =~= Seq::<Row>::empty()) by {
        assert(rows_of(replies(start, first).drop_last()) =~= Seq::<Row>::empty());
    }
    lemma_state_after_concat(start, first, second);
    lemma_rows_of_concat(replies(start, first), replies(grown, second));
    if n > 0 {
        let rows = tier_rows(start, report, outcomes);
        let asked = replies(grown, second);
        assert forall|i: int| 0 <= i < asked.len() implies if i % 2 == 0 {
            #[trigger] asked[i] == Directive::Record(rows[i / 2])
        } else {
            !(asked[i] is Record)
        } by {
            lemma_tier_trials(grown, outcomes, i / 2);
        }
        lemma_tier_trials(grown, outcomes, n - 1);
        lemma_rows_of_alternating(asked, rows, n);
        assert(asked.take(2 * n) =~= asked);
        lemma_replies_concat(start, first, second);
    }
}

/// Whether reports and outcomes are such as the next tiers of a run that
/// stands at `start` can have: no more reports than tiers are left, no fixed
/// point before the last report, and for each tier the outcomes of its
/// trials.
pub open spec fn fit_run(
    start: RunState,
    reports: Seq<GrowthReport>,
    outcomes: Seq<Seq<Outcome>>,
) -> bool {
    &&& reports.len() == outcomes.len()
    &&& start.tier + reports.len() <= start.tiers.len()
    &&& forall|j: int| 0 <= j < reports.len() - 1 ==> !((#[trigger] reports[j]).stop is Saturated)
    &&& forall|j: int| 0 <= j < outcomes.len() ==> fit_plan(start, #[trigger] outcomes[j])
}

/// A whole run, tier after tier. Where the growth phases report `reports`
/// and the searches of each tier end in `outcomes`, the run takes all of it
/// in, and the rows it asks to be recorded are exactly the rows of these
/// tiers, tier by tier and within a tier trial by trial. Afterwards the run
/// is over if the last report was a fixed point or the tiers are used up;
/// otherwise it stands at the growth phase of the tier that follows.
pub proof fn lemma_run(start: RunState, reports: Seq<GrowthReport>, outcomes: Seq<Seq<Outcome>>)
    requires
        start.wf(),
        start.phase is Growing,
        fit_run(start, reports, outcomes),
    ensures
        accepted(start, run_signals(reports, outcomes)),
        rows_of(replies(start, run_signals(reports, outcomes))) == run_rows(
            start,
            reports,
            outcomes,
        ),
        ({
            let end = state_after(start, run_signals(reports, outcomes));
            &&& end.wf()
            &&& same_run(end, start)
            &&& if reports.len() == 0 {
                end == start
            } else if reports.last().stop is Saturated || start.tier + reports.len()
                >= start.tiers.len() {
                end.phase is Finished
            } else {
                end.phase is Growing && end.tier == start.tier + reports.len()
            }
        }),
    decreases reports.len(),
{
    if reports.len() > 0 {
        let before = run_signals(reports.drop_last(), outcomes.drop_last());
        let last = tier_signals(reports.last(), outcomes.last());
        assert(fit_run(start, reports.drop_last(), outcomes.drop_last()));
        lemma_run(start, reports.drop_last(), outcomes.drop_last());
        let middle = state_after(start, before);
        assert(middle.phase is Growing && middle.tier == start.tier + reports.len() - 1);
        assert(fit_plan(middle, outcomes.last()));
        lemma_tier(middle, reports.last(), outcomes.last());
        lemma_state_after_concat(start, before, last);
        lemma_replies_concat(start, before, last);
        lemma_rows_of_concat(replies(start, before), replies(middle, last));
    }
}

} // verus!
