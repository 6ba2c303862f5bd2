//! The order in which the searches of one growth phase are issued.

use vstd::prelude::*;
use crate::strategy::Strategy;

verus! {

/// One search to run: which pattern, under which strategy, and which of the
/// strategy's repeats it is.
#[derive(Clone, Copy, Debug, PartialEq, Eq, Structural)]
pub struct Trial {
    /// Index of the probe pattern in the benchmark's list.
    pub pattern: usize,
    /// The strategy the search runs under.
    pub strategy: Strategy,
    /// Which repeat this is, counted from zero.
    pub repeat: usize,
}

/// The repeats of one pattern under one strategy, in order.
pub open spec fn strategy_trials(pattern: nat, strategy: Strategy) -> Seq<Trial> {
    Seq::new(
        strategy.spec_repeats(),
        |r: int| Trial { pattern: pattern as usize, strategy, repeat: r as usize },
    )
}

/// The trials of one pattern: strategy after strategy, each with its repeats.
pub open spec fn pattern_trials(pattern: nat, strategies: Seq<Strategy>) -> Seq<Trial>
    decreases strategies.len(),
{
    if strategies.len() == 0 {
        Seq::empty()
    } else {
        pattern_trials(pattern, strategies.drop_last()) + strategy_trials(
            pattern,
            strategies.last(),
        )
    }
}

/// The trials of one growth phase over the first `patterns` probe patterns:
/// pattern after pattern, within a pattern strategy after strategy, within a
/// strategy repeat after repeat.
pub open spec fn trial_plan(patterns: nat, strategies: Seq<Strategy>) -> Seq<Trial>
    decreases patterns,
{
    if patterns == 0 {
        Seq::empty()
    } else {
        trial_plan((patterns - 1) as nat, strategies) + pattern_trials(
            (patterns - 1) as nat,
            strategies,
        )
    }
}

/// How many trials of `plan` search `pattern` under `strategy`.
pub open spec fn count_trials(plan: Seq<Trial>, pattern: nat, strategy: Strategy) -> nat
    decreases plan.len(),
{
    if plan.len() == 0 {
        0
    } else {
        count_trials(plan.drop_last(), pattern, strategy) + if plan.last().pattern == pattern
            && plan.last().strategy == strategy {
            1nat
        } else {
            0nat
        }
    }
}

/// How often `strategy` occurs in `strategies`.
pub open spec fn occurrences(strategies: Seq<Strategy>, strategy: Strategy) -> nat
    decreases strategies.len(),
{
    if strategies.len() == 0 {
        0
    } else {
        occurrences(strategies.drop_last(), strategy) + if strategies.last() == strategy {
            1nat
        } else {
            0nat
        }
    }
}

/// Counting over a concatenation adds up.
pub proof fn lemma_count_concat(a: Seq<Trial>, b: Seq<Trial>, pattern: nat, strategy: Strategy)
    ensures
        count_trials(a + b, pattern, strategy) == count_trials(a, pattern, strategy)
            + count_trials(b, pattern, strategy),
    decreases b.len(),
{
    if b.len() > 0 {
        assert((a + b).drop_last() =~= a + b.drop_last());
        lemma_count_concat(a, b.drop_last(), pattern, strategy);
    }
}

/// A stretch of trials of one pattern under one strategy counts in full for
/// that pattern and strategy, and not at all for any other.
proof fn lemma_count_block(
    prefix: Seq<Trial>,
    p: nat,
    s: Strategy,
    pattern: nat,
    strategy: Strategy,
)
    requires
        forall|i: int|
            0 <= i < prefix.len() ==> (#[trigger] prefix[i]).pattern == p && prefix[i].strategy
                == s,
    ensures
        count_trials(prefix, pattern, strategy) == if p == pattern && s == strategy {
            prefix.len()
        } else {
            0
        },
    decreases prefix.len(),
{
    if prefix.len() > 0 {
        lemma_count_block(prefix.drop_last(), p, s, pattern, strategy);
    }
}

/// Within one pattern's trials, a strategy is searched as often as it was
/// selected, times its repeats; other patterns are not searched at all.
pub proof fn lemma_count_pattern_trials(
    p: nat,
    strategies: Seq<Strategy>,
    pattern: nat,
    strategy: Strategy,
)
    requires
        p <= usize::MAX,
    ensures
        count_trials(pattern_trials(p, strategies), pattern, strategy) == if p == pattern {
            occurrences(strategies, strategy) * strategy.spec_repeats()
        } else {
            0
        },
    decreases strategies.len(),
{
    if strategies.len() > 0 {
        let head = pattern_trials(p, strategies.drop_last());
        let block = strategy_trials(p, strategies.last());
        lemma_count_pattern_trials(p, strategies.drop_last(), pattern, strategy);
        lemma_count_block(block, p, strategies.last(), pattern, strategy);
        lemma_count_concat(head, block, pattern, strategy);
        let k = occurrences(strategies.drop_last(), strategy);
        let r = strategy.spec_repeats();
        assert((k + 1) * r == k * r + r) by (nonlinear_arith);
    } else {
        assert(0 * strategy.spec_repeats() == 0) by (nonlinear_arith);
    }
}

/// Each probe pattern is searched, under each strategy, as often as the
/// strategy was selected times the strategy's repeats.
pub proof fn lemma_count_trial_plan(
    patterns: nat,
    strategies: Seq<Strategy>,
    pattern: nat,
    strategy: Strategy,
)
    requires
        patterns <= usize::MAX,
    ensures
        count_trials(trial_plan(patterns, strategies), pattern, strategy) == if pattern
            < patterns {
            occurrences(strategies, strategy) * strategy.spec_repeats()
        } else {
            0
        },
    decreases patterns,
{
    if patterns > 0 {
        let p = (patterns - 1) as nat;
        lemma_count_trial_plan(p, strategies, pattern, strategy);
        lemma_count_pattern_trials(p, strategies, pattern, strategy);
        lemma_count_concat(
            trial_plan(p, strategies),
            pattern_trials(p, strategies),
            pattern,
            strategy,
        );
    }
}

/// With both strategies selected, each probe pattern is searched exactly
/// twice under the join-based strategy and exactly once under the exhaustive
/// one.
pub proof fn lemma_both_strategies_counts(patterns: nat, pattern: nat)
    requires
        pattern < patterns <= usize::MAX,
    ensures
        count_trials(
            trial_plan(patterns, seq![Strategy::GenericJoin, Strategy::EMatch]),
            pattern,
            Strategy::GenericJoin,
        ) == 2,
        count_trials(
            trial_plan(patterns, seq![Strategy::GenericJoin, Strategy::EMatch]),
            pattern,
            Strategy::EMatch,
        ) == 1,
{
    let both = seq![Strategy::GenericJoin, Strategy::EMatch];
    lemma_count_trial_plan(patterns, both, pattern, Strategy::GenericJoin);
    lemma_count_trial_plan(patterns, both, pattern, Strategy::EMatch);
    reveal_with_fuel(occurrences, 3);
}

/// Every trial of a plan names one of the plan's patterns and one of the
/// selected strategies, and a repeat that the strategy has.
pub proof fn lemma_trial_plan_bounds(patterns: nat, strategies: Seq<Strategy>)
    requires
        patterns <= usize::MAX,
    ensures
        forall|k: int|
            0 <= k < trial_plan(patterns, strategies).len() ==> {
                let t = #[trigger] trial_plan(patterns, strategies)[k];
                &&& t.pattern < patterns
                &&& strategies.contains(t.strategy)
                &&& t.repeat < t.strategy.spec_repeats()
            },
    decreases patterns,
{
    if patterns > 0 {
        let p = (patterns - 1) as nat;
        lemma_trial_plan_bounds(p, strategies);
        lemma_pattern_trials_bounds(p, strategies);
    }
}

/// Every trial of one pattern names that pattern, one of the selected
/// strategies, and a repeat that the strategy has.
pub proof fn lemma_pattern_trials_bounds(p: nat, strategies: Seq<Strategy>)
    requires
        p <= usize::MAX,
    ensures
        forall|k: int|
            0 <= k < pattern_trials(p, strategies).len() ==> {
                let t = #[trigger] pattern_trials(p, strategies)[k];
                &&& t.pattern == p
                &&& strategies.contains(t.strategy)
                &&& t.repeat < t.strategy.spec_repeats()
            },
    decreases strategies.len(),
{
    if strategies.len() > 0 {
        let init = strategies.drop_last();
        lemma_pattern_trials_bounds(p, init);
        assert forall|k: int| 0 <= k < pattern_trials(p, strategies).len() implies {
            let t = #[trigger] pattern_trials(p, strategies)[k];
            &&& t.pattern == p
            &&& strategies.contains(t.strategy)
            &&& t.repeat < t.strategy.spec_repeats()
        } by {
            let t = pattern_trials(p, strategies)[k];
            if k < pattern_trials(p, init).len() {
                let j = choose|j: int| 0 <= j < init.len() && init[j] == t.strategy;
                assert(strategies[j] == t.strategy);
            } else {
                assert(strategies[strategies.len() - 1] == t.strategy);
            }
        }
    }
}

/// Lays out the trials of one growth phase: pattern after pattern, within a
/// pattern strategy after strategy, within a strategy repeat after repeat.
pub fn plan_trials(patterns: usize, strategies: &[Strategy]) -> (plan: Vec<Trial>)
    ensures
        plan@ == trial_plan(patterns as nat, strategies@),
{
    let mut plan: Vec<Trial> = Vec::new();
    let mut p: usize = 0;
    while p < patterns
        invariant
            p <= patterns,
            plan@ == trial_plan(p as nat, strategies@),
        decreases patterns - p,
    {
        let ghost before = plan@;
        let mut i: usize = 0;
        while i < strategies.len()
            invariant
                i <= strategies.len(),
                p < patterns,
                plan@ == before + pattern_trials(p as nat, strategies@.take(i as int)),
            decreases strategies.len() - i,
        {
            let strategy = strategies[i];
            let ghost mid = plan@;
            let mut r: usize = 0;
            while r < strategy.repeats()
                invariant
                    r <= strategy.spec_repeats(),
                    plan@ == mid + strategy_trials(p as nat, strategy).take(r as int),
                decreases strategy.spec_repeats() - r,
            {
                plan.push(Trial { pattern: p, strategy, repeat: r });
                r += 1;
            }
            proof {
                assert(strategies@.take(i + 1).drop_last() =~= strategies@.take(i as int));
            }
            i += 1;
        }
        proof {
            assert(strategies@.take(i as int) =~= strategies@);
        }
        p += 1;
    }
    plan
}

} // verus!
