//! The two pattern-search strategies, and the policy attached to each.

use vstd::prelude::*;
use vstd::string::StringExecFns;
use crate::error::ConfigError;
use crate::text::str_eq;

verus! {

/// Which matching algorithm a search is asked to use. A search receives it
/// as an argument; it is never read from the corpus that is searched.
#[derive(Clone, Copy, Debug, PartialEq, Eq, Structural)]
pub enum Strategy {
    /// Join-based multi-way matching.
    GenericJoin,
    /// Exhaustive backtracking matching.
    EMatch,
}

impl Strategy {
    /// How often one pattern is searched under this strategy.
    pub open spec fn spec_repeats(self) -> nat {
        match self {
            Strategy::GenericJoin => 2,
            Strategy::EMatch => 1,
        }
    }

    /// How often one pattern is searched under this strategy: the join-based
    /// strategy is sampled twice, the exhaustive one once.
    pub fn repeats(self) -> (n: usize)
        ensures
            n == self.spec_repeats(),
    {
        match self {
            Strategy::GenericJoin => 2,
            Strategy::EMatch => 1,
        }
    }

    /// The name under which the strategy appears in a recorded row.
    pub open spec fn spec_tag(self) -> Seq<char> {
        match self {
            Strategy::GenericJoin => "GenericJoin"@,
            Strategy::EMatch => "EMatch"@,
        }
    }

    /// The name under which the strategy appears in a recorded row.
    pub fn tag(self) -> (name: String)
        ensures
            name@ == self.spec_tag(),
    {
        match self {
            Strategy::GenericJoin => String::from_str("GenericJoin"),
            Strategy::EMatch => String::from_str("EMatch"),
        }
    }
}

/// The strategies that a selector stands for, in the order in which they are
/// tried on each pattern; `None` for a selector that stands for nothing.
pub open spec fn selected(selector: Seq<char>) -> Option<Seq<Strategy>> {
    if selector == "all"@ {
        Some(seq![Strategy::GenericJoin, Strategy::EMatch])
    } else if selector == "gj"@ {
        Some(seq![Strategy::GenericJoin])
    } else if selector == "em"@ {
        Some(seq![Strategy::EMatch])
    } else {
        None
    }
}

/// Reads a strategy selector: `all`, `gj` or `em`. Anything else is a
/// configuration fault that carries the selector.
pub fn select_strategies(selector: &str) -> (res: Result<Vec<Strategy>, ConfigError>)
    ensures
        match selected(selector@) {
            Some(list) => res matches Ok(v) && v@ == list,
            None => res matches Err(ConfigError::UnknownStrategy(s)) && s@ == selector@,
        },
{
    if str_eq(selector, "all") {
        let mut v = Vec::new();
        v.push(Strategy::GenericJoin);
        v.push(Strategy::EMatch);
        Ok(v)
    } else if str_eq(selector, "gj") {
        let mut v = Vec::new();
        v.push(Strategy::GenericJoin);
        Ok(v)
    } else if str_eq(selector, "em") {
        let mut v = Vec::new();
        v.push(Strategy::EMatch);
        Ok(v)
    } else {
        Err(ConfigError::UnknownStrategy(String::from_str(selector)))
    }
}

} // verus!
