//! What a run does over a whole sequence of signals, and what holds of it
//! whatever the signals are.

use vstd::prelude::*;
use crate::record::{
    is_sentinel, is_time_field, lemma_time_field_form, lemma_zero_timeout, Outcome,
};
use crate::options::{ITER_LIMIT, TIME_LIMIT_SECS};
use crate::plan::{count_trials, lemma_both_strategies_counts, trial_plan};
use crate::run::{Directive, GrowthReport, Phase, RunState, Signal};
use crate::strategy::Strategy;
use crate::text::is_numeral;

verus! {

/// The state that `signals`, taken in one after the other, lead to.
pub open spec fn state_after(start: RunState, signals: Seq<Signal>) -> RunState
    decreases signals.len(),
{
    if signals.len() == 0 {
        start
    } else {
        state_after(start, signals.drop_last()).next(signals.last())
    }
}

/// The state in which the signal at index `i` arrives.
pub open spec fn state_at(start: RunState, signals: Seq<Signal>, i: int) -> RunState {
    state_after(start, signals.take(i))
}

/// Whether each signal is what the run waits for when it arrives.
pub open spec fn accepted(start: RunState, signals: Seq<Signal>) -> bool {
    forall|i: int|
        0 <= i < signals.len() ==> (#[trigger] state_at(start, signals, i)).accepts(signals[i])
}

/// What the run asks for in answer to each signal.
pub open spec fn replies(start: RunState, signals: Seq<Signal>) -> Seq<Directive> {
    Seq::new(signals.len(), |i: int| state_at(start, signals, i).reply(signals[i]))
}

/// Each signal leads from the state it arrives in to the state the next one
/// arrives in.
pub proof fn lemma_state_step(start: RunState, signals: Seq<Signal>, i: int)
    requires
        0 <= i < signals.len(),
    ensures
        state_at(start, signals, i + 1) == state_at(start, signals, i).next(signals[i]),
{
    assert(signals.take(i + 1).drop_last() =~= signals.take(i));
}

/// Along an accepted sequence every state is one a run can be in, and the
/// benchmark, its patterns, the tiers, the plan and the deadline never
/// change.
pub proof fn lemma_states_wf(start: RunState, signals: Seq<Signal>, i: int)
    requires
        start.wf(),
        accepted(start, signals),
        0 <= i <= signals.len(),
    ensures
        state_at(start, signals, i).wf(),
        state_at(start, signals, i).name == start.name,
        state_at(start, signals, i).patterns == start.patterns,
        state_at(start, signals, i).tiers == start.tiers,
        state_at(start, signals, i).plan == start.plan,
        state_at(start, signals, i).timeout_micros == start.timeout_micros,
    decreases i,
{
    if i > 0 {
        lemma_states_wf(start, signals, i - 1);
        lemma_state_step(start, signals, i - 1);
    }
}

/// A row is asked to be recorded only in answer to the outcome of a search,
/// and it is the row of the trial that the run is at.
pub proof fn lemma_record_reply(start: RunState, signals: Seq<Signal>, i: int)
    requires
        start.wf(),
        accepted(start, signals),
        0 <= i < signals.len(),
    ensures
        replies(start, signals)[i] is Record <==> signals[i] is Searched,
        signals[i] matches Signal::Searched(outcome) ==> replies(start, signals)[i]
            == Directive::Record(state_at(start, signals, i).row(outcome)),
{
}

/// Every elapsed-time field that a run asks to be recorded is well formed: it
/// is never empty, and it is either a non-negative decimal integer or the
/// sentinel of the configured deadline, never both.
pub proof fn lemma_recorded_time_fields(start: RunState, signals: Seq<Signal>, i: int)
    requires
        start.wf(),
        accepted(start, signals),
        0 <= i < signals.len(),
    ensures
        replies(start, signals)[i] matches Directive::Record(row) ==> {
            &&& row.time.len() > 0
            &&& is_time_field(row.time, start.timeout_micros)
            &&& !(is_numeral(row.time) && is_sentinel(row.time))
        },
{
    lemma_states_wf(start, signals, i);
    if let Signal::Searched(outcome) = signals[i] {
        lemma_time_field_form(outcome, start.timeout_micros);
    }
}

/// With a deadline of zero every row that a run asks to be recorded carries
/// the timeout sentinel and counts no binding.
pub proof fn lemma_zero_timeout_rows(start: RunState, signals: Seq<Signal>, i: int)
    requires
        start.wf(),
        start.timeout_micros == 0,
        accepted(start, signals),
        0 <= i < signals.len(),
    ensures
        replies(start, signals)[i] matches Directive::Record(row) ==> {
            &&& is_sentinel(row.time)
            &&& row.time[0] == '-'
            &&& row.result_size == 0
        },
{
    lemma_states_wf(start, signals, i);
    if let Signal::Searched(outcome) = signals[i] {
        lemma_zero_timeout(outcome);
    }
}

/// Once the corpus is saturated the run stays at the tier it is at, and
/// stays saturated.
proof fn lemma_saturated_stays(start: RunState, signals: Seq<Signal>, from: int, i: int)
    requires
        start.wf(),
        accepted(start, signals),
        0 <= from <= i <= signals.len(),
        state_at(start, signals, from).saturated,
    ensures
        state_at(start, signals, i).saturated,
        state_at(start, signals, i).tier == state_at(start, signals, from).tier,
        !(state_at(start, signals, i).phase is Growing),
    decreases i - from,
{
    if i > from {
        lemma_saturated_stays(start, signals, from, i - 1);
        lemma_state_step(start, signals, i - 1);
    }
}

/// When a growth phase reports a fixed point, its tier is the last: from
/// then on the run asks for no growth at all, and for no search at any other
/// tier.
pub proof fn lemma_saturation_ends_growth(
    start: RunState,
    signals: Seq<Signal>,
    g: int,
    report: GrowthReport,
    i: int,
)
    requires
        start.wf(),
        accepted(start, signals),
        0 <= g <= i < signals.len(),
        signals[g] == Signal::Grown(report),
        report.stop is Saturated,
    ensures
        !(replies(start, signals)[i] is Grow),
        replies(start, signals)[i] matches Directive::Search { tier, .. } ==> tier == state_at(
            start,
            signals,
            g,
        ).tier,
{
    lemma_state_step(start, signals, g);
    if g < i {
        lemma_saturated_stays(start, signals, g + 1, i);
    }
}

/// Whether the node counts that the growth phases report never decrease,
/// starting from `floor`.
pub open spec fn reports_ascend(floor: usize, signals: Seq<Signal>) -> bool {
    &&& forall|g: int|
        0 <= g < signals.len() ==> (#[trigger] signals[g] matches Signal::Grown(report)
            ==> floor <= report.nodes)
    &&& forall|a: int, b: int|
        0 <= a < b < signals.len() ==> (#[trigger] signals[a] matches Signal::Grown(first) ==> (
        #[trigger] signals[b] matches Signal::Grown(second) ==> first.nodes <= second.nodes))
}

/// The node count that a state holds is no larger than any count reported
/// later.
proof fn lemma_nodes_floor(start: RunState, signals: Seq<Signal>, i: int, g: int)
    requires
        start.wf(),
        accepted(start, signals),
        reports_ascend(start.nodes, signals),
        0 <= i <= g < signals.len(),
    ensures
        signals[g] matches Signal::Grown(report) ==> state_at(start, signals, i).nodes
            <= report.nodes,
    decreases i,
{
    if i > 0 {
        lemma_nodes_floor(start, signals, i - 1, g);
        lemma_state_step(start, signals, i - 1);
    }
}

/// The node count that a run holds never decreases while the reported counts
/// do not.
proof fn lemma_nodes_ascend(start: RunState, signals: Seq<Signal>, i: int, j: int)
    requires
        start.wf(),
        accepted(start, signals),
        reports_ascend(start.nodes, signals),
        0 <= i <= j <= signals.len(),
    ensures
        state_at(start, signals, i).nodes <= state_at(start, signals, j).nodes,
    decreases j - i,
{
    if i < j {
        lemma_nodes_ascend(start, signals, i, j - 1);
        lemma_state_step(start, signals, j - 1);
        lemma_nodes_floor(start, signals, i, j - 1);
    }
}

/// A row carries the node and class counts of the latest growth report. So
/// where the reported node counts never decrease from tier to tier, neither
/// do the node counts of the rows, in the order in which they are recorded.
pub proof fn lemma_rows_follow_reports(start: RunState, signals: Seq<Signal>, i: int, j: int)
    requires
        start.wf(),
        accepted(start, signals),
        reports_ascend(start.nodes, signals),
        0 <= i <= j < signals.len(),
    ensures
        replies(start, signals)[i] matches Directive::Record(earlier) ==> (replies(
            start,
            signals,
        )[j] matches Directive::Record(later) ==> earlier.node_size <= later.node_size),
{
    lemma_nodes_ascend(start, signals, i, j);
}

/// The signals of one tier's trials: for each trial the outcome of its
/// search, then word that its row is recorded.
pub open spec fn trial_signals(outcomes: Seq<Outcome>) -> Seq<Signal> {
    Seq::new(
        2 * outcomes.len(),
        |i: int|
            if i % 2 == 0 {
                Signal::Searched(outcomes[i / 2])
            } else {
                Signal::Recorded
            },
    )
}

/// The run at trial `k` of the tier that `grown` stands at the start of.
pub open spec fn at_trial(grown: RunState, k: int, phase: Phase) -> RunState {
    RunState { slot: k as usize, phase, ..grown }
}

/// The states that the trials of one tier lead through: trial after trial,
/// each first searched, then recorded.
proof fn lemma_trial_states(grown: RunState, outcomes: Seq<Outcome>, k: int)
    requires
        grown.wf(),
        grown.phase is Searching,
        grown.slot == 0,
        outcomes.len() == grown.plan.len(),
        0 <= k < outcomes.len(),
    ensures
        state_at(grown, trial_signals(outcomes), 2 * k) == at_trial(grown, k, Phase::Searching),
        state_at(grown, trial_signals(outcomes), 2 * k + 1) == at_trial(
            grown,
            k,
            Phase::Recording,
        ),
    decreases k,
{
    let signals = trial_signals(outcomes);
    if k > 0 {
        lemma_trial_states(grown, outcomes, k - 1);
        lemma_state_step(grown, signals, 2 * k - 1);
    }
    lemma_state_step(grown, signals, 2 * k);
}

/// After a growth phase the run takes the trials of the plan one by one, in
/// the plan's order: it asks for the search of a trial, then for its row to
/// be recorded, then for the search of the next trial; after the last trial
/// it leaves the tier. So one row is recorded for each trial of the plan, no
/// more and no fewer, and the rows come in the order of the trials.
pub proof fn lemma_tier_trials(grown: RunState, outcomes: Seq<Outcome>, k: int)
    requires
        grown.wf(),
        grown.phase is Searching,
        grown.slot == 0,
        outcomes.len() == grown.plan.len(),
        forall|n: int| 0 <= n < outcomes.len() ==> (#[trigger] outcomes[n]).fits(),
        0 <= k < outcomes.len(),
    ensures
        accepted(grown, trial_signals(outcomes)),
        replies(grown, trial_signals(outcomes))[2 * k] == Directive::Record(
            at_trial(grown, k, Phase::Searching).row(outcomes[k]),
        ),
        k + 1 < outcomes.len() ==> replies(grown, trial_signals(outcomes))[2 * k + 1]
            == at_trial(grown, k + 1, Phase::Searching).request(),
        k + 1 == outcomes.len() ==> replies(grown, trial_signals(outcomes))[2 * k + 1]
            == grown.leave_tier().request(),
        k + 1 == outcomes.len() ==> state_after(grown, trial_signals(outcomes)) == at_trial(
            grown,
            k,
            Phase::Recording,
        ).leave_tier(),
{
    let signals = trial_signals(outcomes);
    assert forall|i: int| 0 <= i < signals.len() implies (#[trigger] state_at(
        grown,
        signals,
        i,
    )).accepts(signals[i]) by {
        lemma_trial_states(grown, outcomes, i / 2);
    }
    lemma_trial_states(grown, outcomes, k);
}

/// Whether the reply to the signal at index `i` asks for a row of `pattern`
/// searched under `strategy`.
pub open spec fn records_trial(
    start: RunState,
    signals: Seq<Signal>,
    i: int,
    pattern: usize,
    strategy: Strategy,
) -> bool {
    let state = state_at(start, signals, i);
    &&& replies(start, signals)[i] is Record
    &&& state.plan[state.slot as int].pattern == pattern
    &&& state.plan[state.slot as int].strategy == strategy
}

/// How many of the replies to the first `upto` signals ask for a row of
/// `pattern` searched under `strategy`.
pub open spec fn rows_recorded(
    start: RunState,
    signals: Seq<Signal>,
    upto: nat,
    pattern: usize,
    strategy: Strategy,
) -> nat
    decreases upto,
{
    if upto == 0 {
        0
    } else {
        rows_recorded(start, signals, (upto - 1) as nat, pattern, strategy) + if records_trial(
            start,
            signals,
            upto - 1,
            pattern,
            strategy,
        ) {
            1nat
        } else {
            0nat
        }
    }
}

/// Through the first `k` trials of a tier, as many rows of a pattern under a
/// strategy are asked for as the plan has such trials among its first `k`.
pub proof fn lemma_rows_match_trials(
    grown: RunState,
    outcomes: Seq<Outcome>,
    k: int,
    pattern: usize,
    strategy: Strategy,
)
    requires
        grown.wf(),
        grown.phase is Searching,
        grown.slot == 0,
        outcomes.len() == grown.plan.len(),
        0 <= k <= outcomes.len(),
    ensures
        rows_recorded(grown, trial_signals(outcomes), (2 * k) as nat, pattern, strategy)
            == count_trials(grown.plan.take(k), pattern as nat, strategy),
    decreases k,
{
    let signals = trial_signals(outcomes);
    if k > 0 {
        let j = k - 1;
        lemma_rows_match_trials(grown, outcomes, j, pattern, strategy);
        lemma_trial_states(grown, outcomes, j);
        assert(grown.plan.take(k).drop_last() =~= grown.plan.take(j));
        assert(rows_recorded(grown, signals, (2 * k) as nat, pattern, strategy) == rows_recorded(
            grown,
            signals,
            (2 * j + 1) as nat,
            pattern,
            strategy,
        ));
    }
}

/// With both strategies selected, the trials of one tier record for each
/// probe pattern exactly two rows under the join-based strategy and exactly
/// one under the exhaustive strategy.
pub proof fn lemma_two_rows_and_one(grown: RunState, outcomes: Seq<Outcome>, pattern: usize)
    requires
        grown.wf(),
        grown.phase is Searching,
        grown.slot == 0,
        grown.plan == trial_plan(
            grown.patterns.len(),
            seq![Strategy::GenericJoin, Strategy::EMatch],
        ),
        outcomes.len() == grown.plan.len(),
        pattern < grown.patterns.len() <= usize::MAX,
    ensures
        rows_recorded(
            grown,
            trial_signals(outcomes),
            (2 * outcomes.len()) as nat,
            pattern,
            Strategy::GenericJoin,
        ) == 2,
        rows_recorded(
            grown,
            trial_signals(outcomes),
            (2 * outcomes.len()) as nat,
            pattern,
            Strategy::EMatch,
        ) == 1,
{
    let n = outcomes.len() as int;
    lemma_rows_match_trials(grown, outcomes, n, pattern, Strategy::GenericJoin);
    lemma_rows_match_trials(grown, outcomes, n, pattern, Strategy::EMatch);
    assert(grown.plan.take(n) =~= grown.plan);
    lemma_both_strategies_counts(grown.patterns.len(), pattern as nat);
}

/// How many of the first `upto` signals report a growth phase.
pub open spec fn growth_reports(signals: Seq<Signal>, upto: nat) -> nat
    decreases upto,
{
    if upto == 0 {
        0
    } else {
        growth_reports(signals, (upto - 1) as nat) + if signals[upto - 1] is Grown {
            1nat
        } else {
            0nat
        }
    }
}

/// A run that starts at a growth phase is, as long as it goes on, at the
/// tier that the number of growth reports so far says.
proof fn lemma_tier_counts_reports(start: RunState, signals: Seq<Signal>, i: nat)
    requires
        start.wf(),
        start.phase is Growing,
        accepted(start, signals),
        i <= signals.len(),
    ensures
        match state_at(start, signals, i as int).phase {
            Phase::Growing => state_at(start, signals, i as int).tier == start.tier
                + growth_reports(signals, i),
            Phase::Searching | Phase::Recording => state_at(start, signals, i as int).tier + 1
                == start.tier + growth_reports(signals, i),
            Phase::Finished => true,
        },
    decreases i,
{
    if i > 0 {
        let j = (i - 1) as nat;
        lemma_tier_counts_reports(start, signals, j);
        lemma_states_wf(start, signals, j as int);
        lemma_state_step(start, signals, j as int);
    }
}

/// The tiers are grown in their order, none twice and none skipped: a run
/// that starts at the growth phase of a tier asks next for the tier that
/// follows the last one reported, under that tier's node ceiling, and always
/// under the same ceilings on iterations and wall-clock time.
pub proof fn lemma_tiers_in_order(start: RunState, signals: Seq<Signal>, i: int)
    requires
        start.wf(),
        start.phase is Growing,
        accepted(start, signals),
        0 <= i < signals.len(),
    ensures
        replies(start, signals)[i] matches Directive::Grow {
            tier,
            node_limit,
            iter_limit,
            time_limit_secs,
        } ==> {
            &&& tier == start.tier + growth_reports(signals, (i + 1) as nat)
            &&& tier < start.tiers.len()
            &&& node_limit == start.tiers[tier as int]
            &&& iter_limit == ITER_LIMIT
            &&& time_limit_secs == TIME_LIMIT_SECS
        },
{
    lemma_tier_counts_reports(start, signals, (i + 1) as nat);
    lemma_states_wf(start, signals, i);
    lemma_state_step(start, signals, i);
}

/// How many signals a run can still take, at most: for each tier that is
/// left, one growth report and two signals for each trial.
pub open spec fn steps_left(state: RunState) -> int {
    let per_tier = 2 * state.plan.len() + 1;
    let tiers_left = state.tiers.len() - state.tier;
    match state.phase {
        Phase::Growing => tiers_left * per_tier,
        Phase::Searching => tiers_left * per_tier - (2 * state.slot + 1),
        Phase::Recording => tiers_left * per_tier - (2 * state.slot + 2),
        Phase::Finished => 0,
    }
}

/// Every signal that a run takes brings it closer to its end.
pub proof fn lemma_step_progress(state: RunState, signal: Signal)
    requires
        state.wf(),
        state.accepts(signal),
    ensures
        0 <= steps_left(state.next(signal)) < steps_left(state),
{
    let per_tier = 2 * state.plan.len() + 1;
    let tiers_left = state.tiers.len() - state.tier;
    assert(tiers_left * per_tier == (tiers_left - 1) * per_tier + per_tier) by (nonlinear_arith);
    assert((tiers_left - 1) * per_tier >= 0) by (nonlinear_arith)
        requires
            tiers_left >= 1,
            per_tier >= 1,
    ;
}

/// A run ends: it takes no more signals than its tiers and trials allow.
pub proof fn lemma_run_ends(start: RunState, signals: Seq<Signal>, i: int)
    requires
        start.wf(),
        accepted(start, signals),
        0 <= i <= signals.len(),
    ensures
        0 <= steps_left(state_at(start, signals, i)) <= steps_left(start) - i,
        signals.len() <= steps_left(start),
{
    lemma_steps_bound(start, signals, signals.len() as int);
    lemma_steps_bound(start, signals, i);
}

/// After `i` signals a run has at least `i` steps fewer left.
proof fn lemma_steps_bound(start: RunState, signals: Seq<Signal>, i: int)
    requires
        start.wf(),
        accepted(start, signals),
        0 <= i <= signals.len(),
    ensures
        0 <= steps_left(state_at(start, signals, i)) <= steps_left(start) - i,
    decreases i,
{
    if i > 0 {
        lemma_steps_bound(start, signals, i - 1);
        lemma_states_wf(start, signals, i - 1);
        lemma_state_step(start, signals, i - 1);
        lemma_step_progress(state_at(start, signals, i - 1), signals[i - 1]);
    } else {
        assert(signals.take(0) =~= Seq::<Signal>::empty());
        lemma_steps_nonnegative(start);
    }
}

/// The steps left are never negative.
proof fn lemma_steps_nonnegative(state: RunState)
    requires
        state.wf(),
    ensures
        0 <= steps_left(state),
{
    let per_tier = 2 * state.plan.len() + 1;
    let tiers_left = state.tiers.len() - state.tier;
    if !(state.phase is Finished) {
        assert(tiers_left * per_tier == (tiers_left - 1) * per_tier + per_tier) by (nonlinear_arith);
        assert((tiers_left - 1) * per_tier >= 0) by (nonlinear_arith)
            requires
                tiers_left >= 1,
                per_tier >= 1,
        ;
    }
}

} // verus!
